use fxr_patcher::game::entry_points::{
    allocate_routine, entry_points_of, resolve_entry_points, FxrEntryPoints,
};
use fxr_patcher::game::game_data::{
    elden_ring, GET_ALLOCATOR_CALL_PATTERN, PATCH_FXR_OFFSETS_CALL_PATTERN,
    PREPARE_FXR_CALL_PATTERN,
};
use fxr_patcher::game::scanner::{
    capture_va, is_plain_pattern, is_scannable, resolve_pattern_va, rva_to_va,
};
use fxr_patcher::memory::{MemoryView, Region};
use fxr_patcher::protocol::FxrManagerError;

const IMAGE_BASE: u64 = 0x1_4000_0000;
const CODE: usize = 0x400;

fn put(image: &mut Vec<u8>, at: usize, bytes: &[u8]) {
    image[at..at + bytes.len()].copy_from_slice(bytes);
}

/// A mapped image of 0x1000 bytes with its code at 0x400..0x800.
fn image() -> Vec<u8> {
    let mut image = vec![0xccu8; 0x1000];
    put(&mut image, 0, &[0u8; 0x200]);
    put(&mut image, 0, b"MZ");
    put(&mut image, 0x3c, &0x80u32.to_le_bytes());
    put(&mut image, 0x80, b"PE\0\0");
    put(&mut image, 0x84, &0x8664u16.to_le_bytes());
    put(&mut image, 0x94, &0xf0u16.to_le_bytes());
    put(&mut image, 0x98, &0x20bu16.to_le_bytes());
    put(&mut image, 0x9c, &0x400u32.to_le_bytes());
    put(&mut image, 0xac, &(CODE as u32).to_le_bytes());
    put(&mut image, 0xb0, &IMAGE_BASE.to_le_bytes());
    put(&mut image, 0xd0, &0x1000u32.to_le_bytes());
    put(&mut image, 0xd4, &0x200u32.to_le_bytes());
    put(&mut image, 0x104, &16u32.to_le_bytes());
    image
}

/// Puts a relative call behind `lead` at `at`, to the relative address
/// `target`.
fn put_call(image: &mut Vec<u8>, at: usize, lead: &[u8], target: u32) {
    put(image, at, lead);
    let call = at + lead.len();
    image[call] = 0xe8;
    let next = (call + 5) as u32;
    put(image, call + 1, &target.wrapping_sub(next).to_le_bytes());
}

const GET_ALLOCATOR_LEAD: [u8; 23] = [
    0x48, 0x8b, 0x44, 0x24, 0x28, 0x8b, 0x40, 0x04, 0xc1, 0xe8, 0x10, 0x83, 0xf8, 0x05, 0x74,
    0x07, 0x33, 0xc0, 0xe9, 0x59, 0x01, 0x00, 0x00,
];
const PATCH_OFFSETS_LEAD: [u8; 15] = [
    0x4c, 0x8b, 0x44, 0x24, 0x20, 0x48, 0x8b, 0x54, 0x24, 0x20, 0x48, 0x8b, 0x4c, 0x24, 0x20,
];
const PREPARE_LEAD: [u8; 12] =
    [0x33, 0xc0, 0xe9, 0x10, 0x00, 0x00, 0x00, 0x48, 0x8b, 0x4c, 0x24, 0x20];

fn image_with_calls() -> Vec<u8> {
    let mut image = image();
    put_call(&mut image, CODE + 0x10, &GET_ALLOCATOR_LEAD, 0x700);
    put_call(&mut image, CODE + 0x80, &PATCH_OFFSETS_LEAD, 0x420);
    put_call(&mut image, CODE + 0x100, &PREPARE_LEAD, 0x7f0);
    image
}

#[test]
fn scanner_follows_the_call_to_its_target() {
    let image = image_with_calls();
    assert_eq!(
        resolve_pattern_va(&image, GET_ALLOCATOR_CALL_PATTERN, 1),
        Some(IMAGE_BASE + 0x700)
    );
    assert_eq!(
        resolve_pattern_va(&image, PATCH_FXR_OFFSETS_CALL_PATTERN, 1),
        Some(IMAGE_BASE + 0x420)
    );
    assert_eq!(resolve_pattern_va(&image, PREPARE_FXR_CALL_PATTERN, 1), Some(IMAGE_BASE + 0x7f0));
}

#[test]
fn scanner_slot_zero_is_the_place_of_the_match() {
    let image = image_with_calls();
    assert_eq!(
        resolve_pattern_va(&image, PATCH_FXR_OFFSETS_CALL_PATTERN, 0),
        Some(IMAGE_BASE + 0x480)
    );
    assert_eq!(resolve_pattern_va(&image, "33 c0 e9 ' 10", 1), Some(IMAGE_BASE + 0x503));
}

#[test]
fn scanner_finds_nothing_without_a_match() {
    let image = image();
    assert_eq!(resolve_pattern_va(&image, GET_ALLOCATOR_CALL_PATTERN, 1), None);
}

#[test]
fn scanner_refuses_a_match_that_is_not_the_only_one() {
    let mut image = image_with_calls();
    put_call(&mut image, CODE + 0x200, &PATCH_OFFSETS_LEAD, 0x440);
    assert_eq!(resolve_pattern_va(&image, PATCH_FXR_OFFSETS_CALL_PATTERN, 1), None);
}

#[test]
fn scanner_looks_at_the_code_range_only() {
    let mut image = image();
    put_call(&mut image, 0x900, &PATCH_OFFSETS_LEAD, 0x420);
    assert_eq!(resolve_pattern_va(&image, PATCH_FXR_OFFSETS_CALL_PATTERN, 1), None);
}

#[test]
fn scanner_gets_no_pattern_that_is_not_plain() {
    let image = image_with_calls();
    for pattern in ["e8 $ @z", "e8 * '", "e8 [4] '", "\"MZ\"", "e8 i4", "( 33 | 34 )", "é"] {
        assert!(!is_plain_pattern(pattern), "{:?}", pattern);
        assert_eq!(resolve_pattern_va(&image, pattern, 1), None);
    }
    let long = "90 ".repeat(86);
    assert!(!is_plain_pattern(&long));
    assert!(is_plain_pattern(&long[..255]));
    assert!(is_plain_pattern(GET_ALLOCATOR_CALL_PATTERN));
    assert!(is_plain_pattern(""));
}

#[test]
fn scanner_gets_no_image_whose_code_range_leaves_it() {
    let mut image = image_with_calls();
    put(&mut image, 0xac, &0x2000u32.to_le_bytes());
    assert!(!is_scannable(&image));
    assert_eq!(resolve_pattern_va(&image, PATCH_FXR_OFFSETS_CALL_PATTERN, 1), None);
    let mut wrapped = image_with_calls();
    put(&mut wrapped, 0x9c, &0xffff_ff00u32.to_le_bytes());
    assert!(!is_scannable(&wrapped));
    assert_eq!(resolve_pattern_va(&wrapped, PATCH_FXR_OFFSETS_CALL_PATTERN, 1), None);
}

#[test]
fn scanner_takes_what_is_no_image_and_finds_nothing() {
    assert!(is_scannable(&[]));
    assert_eq!(resolve_pattern_va(&[], PATCH_FXR_OFFSETS_CALL_PATTERN, 1), None);
    let noise: Vec<u8> = (0..0x300u32).map(|i| (i * 13) as u8).collect();
    if is_scannable(&noise) {
        assert_eq!(resolve_pattern_va(&noise, PATCH_FXR_OFFSETS_CALL_PATTERN, 1), None);
    }
    assert_eq!(resolve_pattern_va(&image_with_calls(), "e8", usize::MAX), None);
    assert_eq!(resolve_pattern_va(&image_with_calls(), "e8", 256), None);
}

#[test]
fn scanner_gets_no_image_whose_second_header_is_out_of_step() {
    let mut image = image_with_calls();
    let header = image[0x80..0x200].to_vec();
    put(&mut image, 0x84, &header);
    put(&mut image, 0x3c, &0x84u32.to_le_bytes());
    assert!(!is_scannable(&image));
    assert_eq!(resolve_pattern_va(&image, PATCH_FXR_OFFSETS_CALL_PATTERN, 1), None);
}

#[test]
fn scanner_takes_an_image_at_any_address() {
    for skip in 0..4 {
        let mut buffer = vec![0u8; skip];
        buffer.extend_from_slice(&image_with_calls());
        assert_eq!(
            resolve_pattern_va(&buffer[skip..], PATCH_FXR_OFFSETS_CALL_PATTERN, 1),
            Some(IMAGE_BASE + 0x420)
        );
    }
}

#[test]
fn rva_to_va_adds_the_image_base() {
    let image = image();
    assert_eq!(rva_to_va(&image, 0x700), Some(IMAGE_BASE + 0x700));
    assert_eq!(rva_to_va(&image, 1), Some(IMAGE_BASE + 1));
    assert_eq!(rva_to_va(&image, 0xfff), Some(IMAGE_BASE + 0xfff));
}

#[test]
fn rva_to_va_refuses_null_and_what_lies_outside() {
    let mut image = image();
    assert_eq!(rva_to_va(&image, 0), None);
    assert_eq!(rva_to_va(&image, 0x1000), None);
    assert_eq!(rva_to_va(&image[..0x100], 0x700), None);
    put(&mut image, 0xb0, &(u64::MAX - 0x10).to_le_bytes());
    assert_eq!(rva_to_va(&image, 0x10), Some(u64::MAX));
    assert_eq!(rva_to_va(&image, 0x11), None);
}

#[test]
fn capture_va_takes_the_slot_asked_for() {
    let image = image();
    assert_eq!(capture_va(&image, &vec![0x410, 0x700], 1), Some(IMAGE_BASE + 0x700));
    assert_eq!(capture_va(&image, &vec![0x410, 0x700], 0), Some(IMAGE_BASE + 0x410));
    assert_eq!(capture_va(&image, &vec![0x410, 0x700], 2), None);
    assert_eq!(capture_va(&image, &vec![0x410, 0], 1), None);
}

#[test]
fn entry_points_are_resolved_from_the_profile() {
    let image = image_with_calls();
    assert_eq!(
        resolve_entry_points(&image, &elden_ring().patterns),
        Ok(FxrEntryPoints {
            get_allocator: IMAGE_BASE + 0x700,
            patch_fxr_offsets: IMAGE_BASE + 0x420,
            prepare_fxr: IMAGE_BASE + 0x7f0,
        })
    );
}

#[test]
fn entry_points_name_the_first_that_is_missing() {
    assert_eq!(
        entry_points_of(None, None, None),
        Err(FxrManagerError::InstructionPattern("get_allocator".to_string()))
    );
    assert_eq!(
        entry_points_of(Some(1), None, None),
        Err(FxrManagerError::InstructionPattern("patch_fxr_offsets".to_string()))
    );
    assert_eq!(
        entry_points_of(Some(1), Some(2), None),
        Err(FxrManagerError::InstructionPattern("prepare_fxr".to_string()))
    );
    assert_eq!(
        entry_points_of(Some(1), Some(2), Some(3)),
        Ok(FxrEntryPoints { get_allocator: 1, patch_fxr_offsets: 2, prepare_fxr: 3 })
    );
    let mut image = image_with_calls();
    put(&mut image, CODE + 0x100, &[0x90; 4]);
    assert_eq!(
        resolve_entry_points(&image, &elden_ring().patterns),
        Err(FxrManagerError::InstructionPattern("prepare_fxr".to_string()))
    );
}

#[test]
fn allocate_routine_is_read_from_the_table() {
    let mut heap = vec![0u8; 0x200];
    put(&mut heap, 0x20, &0x9100u64.to_le_bytes());
    put(&mut heap, 0x100 + 0x50, &0x1_4012_3456u64.to_le_bytes());
    let view = MemoryView::new(vec![Region::new(0x9000, &heap).unwrap()]);
    assert_eq!(allocate_routine(&view, 0x9020), Some(0x1_4012_3456));
    assert_eq!(allocate_routine(&view, 0x9028), None);
    assert_eq!(allocate_routine(&view, 0x8000), None);
    assert_eq!(allocate_routine(&view, 0), None);
}
