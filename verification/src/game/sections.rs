//! The sections of a loaded image, read from its headers.

use crate::game::resolver::signed32;
use crate::memory::{decode_u32, le_u32, MemoryView, Region};
use vstd::prelude::*;
use vstd::string::StringSliceAdditionalSpecFns;

verus! {

/// Why the sections of a module could not be had.
#[derive(Clone, Copy, Debug, PartialEq, Eq)]
pub enum LookupError {
    ModuleNotFound,
    SectionNotFound,
}

/// The addresses that a section takes: from `start` up to, not including,
/// `end`.
#[derive(Clone, Copy, Debug, PartialEq, Eq)]
pub struct SectionRange {
    pub start: u64,
    pub end: u64,
}

/// What a section header says, as far as it is read here.
pub struct SectionHeader {
    pub name: Seq<u8>,
    pub virtual_size: u32,
    pub virtual_address: u32,
}

/// Where the first header of an image keeps the offset of the second.
pub const NEW_HEADER_OFFSET: u64 = 0x3c;

/// Where the second header keeps the number of sections.
pub const SECTION_COUNT_OFFSET: u64 = 0x6;

/// Where the second header keeps the number of its directory entries.
pub const DIRECTORY_COUNT_OFFSET: u64 = 0x84;

/// Where the directory entries begin in the second header.
pub const DIRECTORY_OFFSET: u64 = 0x88;

/// The bytes of one directory entry.
pub const DIRECTORY_ENTRY_SIZE: u64 = 8;

/// The bytes of one section header.
pub const SECTION_HEADER_SIZE: u64 = 40;

/// The bytes of a section header that are read: the name, the size and the
/// address.
pub const SECTION_HEADER_READ: usize = 16;

/// The `u16` at `addr`, for an address that a `u64` can hold.
pub open spec fn u16_in(view: MemoryView<'_>, addr: int) -> Option<u16> {
    if 0 <= addr <= u64::MAX {
        view.u16_at(addr)
    } else {
        None
    }
}

/// The `u32` at `addr`, for an address that a `u64` can hold.
pub open spec fn u32_in(view: MemoryView<'_>, addr: int) -> Option<u32> {
    if 0 <= addr <= u64::MAX {
        view.u32_at(addr)
    } else {
        None
    }
}

/// The address of the second header of the image at `module`: the offset kept
/// in the first header is signed, and the address has to be one.
pub open spec fn new_header(view: MemoryView<'_>, module: u64) -> Option<int> {
    match u32_in(view, module + NEW_HEADER_OFFSET) {
        Some(offset) => if 0 <= module + signed32(offset) <= u64::MAX {
            Some(module + signed32(offset))
        } else {
            None
        },
        None => None,
    }
}

/// Where the section headers of the image at `module` begin, and how many they
/// are: the headers follow the directory entries of the second header.
pub open spec fn section_table(view: MemoryView<'_>, module: u64) -> Option<(int, int)> {
    match new_header(view, module) {
        None => None,
        Some(header) => match u16_in(view, header + SECTION_COUNT_OFFSET) {
            None => None,
            Some(count) => match u32_in(view, header + DIRECTORY_COUNT_OFFSET) {
                None => None,
                Some(entries) => Some(
                    (header + DIRECTORY_OFFSET + DIRECTORY_ENTRY_SIZE * entries, count as int),
                ),
            },
        },
    }
}

/// The section header at `addr`.
pub open spec fn section_header(view: MemoryView<'_>, addr: int) -> Option<SectionHeader> {
    if 0 <= addr <= u64::MAX {
        match view.block(addr, SECTION_HEADER_READ as int) {
            Some(b) => Some(
                SectionHeader {
                    name: b.subrange(0, 8),
                    virtual_size: le_u32(b.subrange(8, 12)) as u32,
                    virtual_address: le_u32(b.subrange(12, 16)) as u32,
                },
            ),
            None => None,
        }
    } else {
        None
    }
}

/// The number of bytes in front of the first zero byte of `field` from index
/// `from` on, or up to its end where it has none.
pub open spec fn text_end(field: Seq<u8>, from: int) -> int
    decreases field.len() - from,
{
    if from < 0 || from >= field.len() {
        field.len() as int
    } else if field[from] == 0 {
        from
    } else {
        text_end(field, from + 1)
    }
}

/// The name that a name field holds: its bytes in front of the first zero.
pub open spec fn field_text(field: Seq<u8>) -> Seq<u8> {
    field.take(text_end(field, 0))
}

/// The addresses that the section of `header` takes in the image at `module`,
/// unless they reach past the largest address.
pub open spec fn range_of(module: u64, header: SectionHeader) -> Option<SectionRange> {
    let start = module + header.virtual_address;
    let end = start + header.virtual_size;
    if end <= u64::MAX {
        Some(SectionRange { start: start as u64, end: end as u64 })
    } else {
        None
    }
}

/// The ranges of the sections named `name` among the first `count` headers of
/// the table at `table`, in the order of the headers. A header that cannot be
/// read counts for nothing.
pub open spec fn ranges_among(
    view: MemoryView<'_>,
    module: u64,
    table: int,
    name: Seq<u8>,
    count: int,
) -> Seq<SectionRange>
    decreases count,
{
    if count <= 0 {
        Seq::empty()
    } else {
        let before = ranges_among(view, module, table, name, count - 1);
        match section_header(view, table + SECTION_HEADER_SIZE * (count - 1)) {
            None => before,
            Some(header) => if field_text(header.name) == name {
                match range_of(module, header) {
                    Some(range) => before.push(range),
                    None => before,
                }
            } else {
                before
            },
        }
    }
}

/// The ranges of the sections named `name` in the image at `module`.
pub open spec fn section_ranges(view: MemoryView<'_>, module: u64, name: Seq<u8>) -> Seq<
    SectionRange,
> {
    match section_table(view, module) {
        Some((table, count)) => ranges_among(view, module, table, name, count),
        None => Seq::empty(),
    }
}

fn name_is(field: &[u8], name: &[u8]) -> (r: bool)
    requires
        field@.len() == 8,
    ensures
        r == (field_text(field@) == name@),
{
    let mut end: usize = 0;
    while end < 8 && field[end] != 0
        invariant
            end <= 8,
            field@.len() == 8,
            text_end(field@, 0) == text_end(field@, end as int),
        decreases 8 - end,
    {
        end += 1;
    }
    assert(text_end(field@, 0) == end);
    if name.len() != end {
        return false;
    }
    let mut i: usize = 0;
    while i < end
        invariant
            i <= end,
            end <= 8,
            field@.len() == 8,
            name@.len() == end,
            text_end(field@, 0) == end,
            forall|k: int| 0 <= k < i ==> field@[k] == name@[k],
        decreases end - i,
    {
        if field[i] != name[i] {
            assert(field@.take(end as int)[i as int] != name@[i as int]);
            return false;
        }
        i += 1;
    }
    assert(field@.take(end as int) =~= name@);
    true
}

/// The `u32` at `addr`, where there is an address.
fn read_u32_in(view: &MemoryView<'_>, addr: Option<u64>) -> (r: Option<u32>)
    ensures
        addr matches Some(a) ==> r == view.u32_at(a as int),
        addr is None ==> r is None,
{
    match addr {
        Some(a) => view.read_u32(a),
        None => None,
    }
}

/// The ranges of all sections named `specified_section` in the image whose
/// base address is `module`, in the order of their headers. `module` is `None`
/// where the module was not found.
pub fn get_all_module_section_ranges(
    view: &MemoryView<'_>,
    module: Option<u64>,
    specified_section: &str,
) -> (r: Result<Vec<SectionRange>, LookupError>)
    ensures
        module is None ==> r == Err::<Vec<SectionRange>, LookupError>(LookupError::ModuleNotFound),
        module matches Some(base) ==> {
            let ranges = section_ranges(*view, base, specified_section.spec_bytes());
            if ranges.len() == 0 {
                r == Err::<Vec<SectionRange>, LookupError>(LookupError::SectionNotFound)
            } else {
                r matches Ok(found) && found@ == ranges
            }
        },
{
    let module_base = match module {
        Some(base) => base,
        None => {
            return Err(LookupError::ModuleNotFound);
        },
    };
    let wanted = specified_section.as_bytes();
    let offset = match read_u32_in(view, module_base.checked_add(NEW_HEADER_OFFSET)) {
        Some(o) => o,
        None => {
            return Err(LookupError::SectionNotFound);
        },
    };
    let displacement: i64 = if offset >= 0x8000_0000 {
        offset as i64 - 0x1_0000_0000
    } else {
        offset as i64
    };
    let nt_header_base = match module_base.checked_add_signed(displacement) {
        Some(a) => a,
        None => {
            return Err(LookupError::SectionNotFound);
        },
    };
    let num_sections = match nt_header_base.checked_add(SECTION_COUNT_OFFSET) {
        Some(a) => match view.read_u16(a) {
            Some(n) => n,
            None => {
                return Err(LookupError::SectionNotFound);
            },
        },
        None => {
            return Err(LookupError::SectionNotFound);
        },
    };
    let number_of_rva_and_sizes = match read_u32_in(
        view,
        nt_header_base.checked_add(DIRECTORY_COUNT_OFFSET),
    ) {
        Some(n) => n,
        None => {
            return Err(LookupError::SectionNotFound);
        },
    };
    let ghost table: int = nt_header_base + DIRECTORY_OFFSET + DIRECTORY_ENTRY_SIZE
        * number_of_rva_and_sizes;
    assert(section_table(*view, module_base) == Some((table, num_sections as int)));
    let section_base: u128 = nt_header_base as u128 + DIRECTORY_OFFSET as u128
        + DIRECTORY_ENTRY_SIZE as u128 * number_of_rva_and_sizes as u128;
    let mut results: Vec<SectionRange> = Vec::new();
    let mut index: u16 = 0;
    while index < num_sections
        invariant
            index <= num_sections,
            section_base == table,
            0 <= table <= 0x1_0000_0000_0000_0000 + 0x88 + 8 * 0x1_0000_0000,
            wanted@ == specified_section.spec_bytes(),
            results@ == ranges_among(*view, module_base, table, wanted@, index as int),
        decreases num_sections - index,
    {
        assert(SECTION_HEADER_SIZE * index <= 40 * 0xffff);
        let current_section_header: u128 = section_base + SECTION_HEADER_SIZE as u128
            * index as u128;
        if current_section_header <= u64::MAX as u128 {
            match view.slice(current_section_header as u64, SECTION_HEADER_READ) {
                Some(header) => {
                    let name = vstd::slice::slice_subrange(header, 0, 8);
                    if name_is(name, wanted) {
                        let section_size = decode_u32(header, 8);
                        let section_va = decode_u32(header, 12);
                        let start: u128 = module_base as u128 + section_va as u128;
                        let end: u128 = start + section_size as u128;
                        if end <= u64::MAX as u128 {
                            results.push(SectionRange { start: start as u64, end: end as u64 });
                        }
                    }
                },
                None => {},
            }
        }
        index += 1;
    }
    if results.len() == 0 {
        Err(LookupError::SectionNotFound)
    } else {
        Ok(results)
    }
}

/// The name of the sections that hold code.
pub const CODE_SECTION: &'static str = ".text";

/// A stretch of bytes as a value: the address of the first, and the bytes.
pub struct Stretch {
    pub start: int,
    pub bytes: Seq<u8>,
}

/// What each of `regions` holds, and where.
pub open spec fn stretches(regions: Seq<Region<'_>>) -> Seq<Stretch> {
    Seq::new(
        regions.len(),
        |i: int| Stretch { start: regions[i].start(), bytes: regions[i].contents() },
    )
}

/// The bytes that the view holds for the first `count` of `ranges`, in their
/// order. A range that the view does not hold as a whole counts for nothing.
pub open spec fn bytes_of_ranges(view: MemoryView<'_>, ranges: Seq<SectionRange>, count: int) -> Seq<
    Stretch,
>
    decreases count,
{
    if count <= 0 || count > ranges.len() {
        Seq::empty()
    } else {
        let before = bytes_of_ranges(view, ranges, count - 1);
        let range = ranges[count - 1];
        match view.block(range.start as int, range.end - range.start) {
            Some(bytes) => before.push(Stretch { start: range.start as int, bytes }),
            None => before,
        }
    }
}

/// The code sections of the images at the first `count` of `modules`, one
/// image after the other. A module that was not found, or whose image has no
/// code section, counts for nothing.
pub open spec fn code_of_modules(view: MemoryView<'_>, modules: Seq<Option<u64>>, count: int) -> Seq<
    Stretch,
>
    decreases count,
{
    if count <= 0 || count > modules.len() {
        Seq::empty()
    } else {
        let before = code_of_modules(view, modules, count - 1);
        match modules[count - 1] {
            None => before,
            Some(base) => {
                let ranges = section_ranges(view, base, CODE_SECTION.spec_bytes());
                before + bytes_of_ranges(view, ranges, ranges.len() as int)
            },
        }
    }
}

/// The code sections of the images whose base addresses are `modules`, as
/// regions to search, in the order of the modules and of their section
/// headers.
pub fn text_sections<'a>(view: &MemoryView<'a>, modules: &Vec<Option<u64>>) -> (r: Vec<Region<'a>>)
    ensures
        stretches(r@) == code_of_modules(*view, modules@, modules@.len() as int),
{
    let mut sections: Vec<Region<'a>> = Vec::new();
    let mut i: usize = 0;
    assert(stretches(sections@) =~= Seq::<Stretch>::empty());
    while i < modules.len()
        invariant
            i <= modules@.len(),
            stretches(sections@) == code_of_modules(*view, modules@, i as int),
        decreases modules@.len() - i,
    {
        match get_all_module_section_ranges(view, modules[i], CODE_SECTION) {
            Err(_) => {
                proof {
                    if modules@[i as int] is Some {
                        let ranges = section_ranges(
                            *view,
                            modules@[i as int]->0,
                            CODE_SECTION.spec_bytes(),
                        );
                        assert(stretches(sections@) + bytes_of_ranges(*view, ranges, 0)
                            =~= stretches(sections@));
                    }
                }
            },
            Ok(ranges) => {
                let ghost before = stretches(sections@);
                let mut j: usize = 0;
                proof {
                    assert(before + bytes_of_ranges(*view, ranges@, 0) =~= before);
                }
                while j < ranges.len()
                    invariant
                        j <= ranges@.len(),
                        stretches(sections@) == before + bytes_of_ranges(*view, ranges@, j as int),
                    decreases ranges@.len() - j,
                {
                    let range = ranges[j];
                    let ghost grown = bytes_of_ranges(*view, ranges@, j + 1);
                    if range.start <= range.end && range.end - range.start <= usize::MAX as u64 {
                        match view.slice(range.start, (range.end - range.start) as usize) {
                            Some(bytes) => {
                                match Region::new(range.start, bytes) {
                                    Some(region) => {
                                        let ghost old_sections = sections@;
                                        sections.push(region);
                                        proof {
                                            assert(stretches(sections@) =~= stretches(
                                                old_sections,
                                            ).push(
                                                Stretch {
                                                    start: range.start as int,
                                                    bytes: bytes@,
                                                },
                                            ));
                                            assert(before + grown =~= (before + bytes_of_ranges(
                                                *view,
                                                ranges@,
                                                j as int,
                                            )).push(
                                                Stretch {
                                                    start: range.start as int,
                                                    bytes: bytes@,
                                                },
                                            ));
                                        }
                                    },
                                    None => {},
                                }
                            },
                            None => {},
                        }
                    } else {
                        proof {
                            crate::memory::lemma_block_fits(
                                view.regions@,
                                0,
                                range.start as int,
                                range.end - range.start,
                            );
                        }
                    }
                    j += 1;
                }
            },
        }
        i += 1;
    }
    sections
}

} // verus!
