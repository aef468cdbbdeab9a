use fxr_patcher::game::sections::{get_all_module_section_ranges, LookupError, SectionRange};
use fxr_patcher::memory::{MemoryView, Region};

const MODULE: u64 = 0x1_4000_0000;

fn put(image: &mut Vec<u8>, at: usize, bytes: &[u8]) {
    image[at..at + bytes.len()].copy_from_slice(bytes);
}

fn section(image: &mut Vec<u8>, table: usize, index: usize, name: &[u8], size: u32, address: u32) {
    let at = table + 40 * index;
    let mut field = [0u8; 8];
    field[..name.len()].copy_from_slice(name);
    put(image, at, &field);
    put(image, at + 8, &size.to_le_bytes());
    put(image, at + 12, &address.to_le_bytes());
}

/// An image whose second header lies at 0x80 and has `entries` directory
/// entries, with four sections.
fn image(entries: u32) -> Vec<u8> {
    let mut image = vec![0u8; 0x400];
    put(&mut image, 0, b"MZ");
    put(&mut image, 0x3c, &0x80u32.to_le_bytes());
    put(&mut image, 0x80, b"PE\0\0");
    put(&mut image, 0x86, &4u16.to_le_bytes());
    put(&mut image, 0x80 + 0x84, &entries.to_le_bytes());
    let table = 0x80 + 0x88 + 8 * entries as usize;
    section(&mut image, table, 0, b".text", 0x800, 0x1000);
    section(&mut image, table, 1, b".data", 0x200, 0x2000);
    section(&mut image, table, 2, b".text", 0x100, 0x3000);
    section(&mut image, table, 3, b".textual", 0x10, 0x4000);
    image
}

fn view(image: &[u8]) -> MemoryView<'_> {
    MemoryView::new(vec![Region::new(MODULE, image).unwrap()])
}

#[test]
fn sections_of_a_name_come_in_header_order() {
    let image = image(16);
    assert_eq!(
        get_all_module_section_ranges(&view(&image), Some(MODULE), ".text"),
        Ok(vec![
            SectionRange { start: MODULE + 0x1000, end: MODULE + 0x1800 },
            SectionRange { start: MODULE + 0x3000, end: MODULE + 0x3100 },
        ])
    );
    assert_eq!(
        get_all_module_section_ranges(&view(&image), Some(MODULE), ".data"),
        Ok(vec![SectionRange { start: MODULE + 0x2000, end: MODULE + 0x2200 }])
    );
}

#[test]
fn section_name_of_eight_bytes_has_no_end_mark() {
    let image = image(16);
    assert_eq!(
        get_all_module_section_ranges(&view(&image), Some(MODULE), ".textual"),
        Ok(vec![SectionRange { start: MODULE + 0x4000, end: MODULE + 0x4010 }])
    );
    assert_eq!(
        get_all_module_section_ranges(&view(&image), Some(MODULE), ".textual!"),
        Err(LookupError::SectionNotFound)
    );
}

#[test]
fn section_table_follows_the_directory_entries() {
    for entries in [0u32, 3, 16] {
        let image = image(entries);
        assert_eq!(
            get_all_module_section_ranges(&view(&image), Some(MODULE), ".data"),
            Ok(vec![SectionRange { start: MODULE + 0x2000, end: MODULE + 0x2200 }])
        );
    }
}

#[test]
fn missing_module_is_module_not_found() {
    let image = image(16);
    assert_eq!(
        get_all_module_section_ranges(&view(&image), None, ".text"),
        Err(LookupError::ModuleNotFound)
    );
}

#[test]
fn missing_section_is_section_not_found() {
    let image = image(16);
    assert_eq!(
        get_all_module_section_ranges(&view(&image), Some(MODULE), ".rsrc"),
        Err(LookupError::SectionNotFound)
    );
    assert_eq!(
        get_all_module_section_ranges(&view(&image), Some(MODULE), ""),
        Err(LookupError::SectionNotFound)
    );
}

#[test]
fn unreadable_headers_are_section_not_found() {
    let image = image(16);
    assert_eq!(
        get_all_module_section_ranges(&view(&image), Some(MODULE + 0x1_0000), ".text"),
        Err(LookupError::SectionNotFound)
    );
    let mut far = image.clone();
    put(&mut far, 0x3c, &0x7000_0000u32.to_le_bytes());
    assert_eq!(
        get_all_module_section_ranges(&view(&far), Some(MODULE), ".text"),
        Err(LookupError::SectionNotFound)
    );
    let mut back = image.clone();
    put(&mut back, 0x3c, &0xffff_ff00u32.to_le_bytes());
    assert_eq!(
        get_all_module_section_ranges(&view(&back), Some(MODULE), ".text"),
        Err(LookupError::SectionNotFound)
    );
}

#[test]
fn section_headers_outside_the_view_count_for_nothing() {
    let mut image = image(16);
    put(&mut image, 0x86, &400u16.to_le_bytes());
    assert_eq!(
        get_all_module_section_ranges(&view(&image), Some(MODULE), ".data"),
        Ok(vec![SectionRange { start: MODULE + 0x2000, end: MODULE + 0x2200 }])
    );
}

#[test]
fn section_past_the_largest_address_is_left_out() {
    let image = image(16);
    let high = u64::MAX - 0x3fff;
    let view = MemoryView::new(vec![Region::new(high, &image[..0x3f0]).unwrap()]);
    assert_eq!(
        get_all_module_section_ranges(&view, Some(high), ".text"),
        Ok(vec![
            SectionRange { start: high + 0x1000, end: high + 0x1800 },
            SectionRange { start: high + 0x3000, end: high + 0x3100 },
        ])
    );
    assert_eq!(
        get_all_module_section_ranges(&view, Some(high), ".textual"),
        Err(LookupError::SectionNotFound)
    );
}
