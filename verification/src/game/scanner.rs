//! Addresses in a loaded image, found by the pattern scanner of `pelite`.
//!
//! The scanner works on an image as the loader maps it: the headers at the
//! start, every section at its relative virtual address.

use crate::memory::{decode_u32, decode_u64, le_u32, le_u64};
use vstd::prelude::*;

verus! {

/// Where the first header keeps the offset of the second.
pub const NEW_HEADER_FIELD: usize = 0x3c;

/// The bytes of the second header up to its directory entries.
pub const NEW_HEADER_SIZE: usize = 0x88;

/// Where the second header keeps the size of the code.
pub const SIZE_OF_CODE_FIELD: usize = 0x1c;

/// Where the second header keeps the relative address of the code.
pub const BASE_OF_CODE_FIELD: usize = 0x2c;

/// Where the second header keeps the address that the image is loaded at.
pub const IMAGE_BASE_FIELD: usize = 0x30;

/// Where the second header keeps the size of the loaded image.
pub const SIZE_OF_IMAGE_FIELD: usize = 0x50;

/// The longest pattern text that is handed to the scanner.
pub const PATTERN_LIMIT: usize = 255;

/// The most save slots that a pattern can write to.
pub const SLOT_LIMIT: usize = 256;

/// The offset of the second header, where the image is long enough to hold the
/// first and, at that offset, the second.
pub open spec fn new_header_at(image: Seq<u8>) -> Option<int> {
    if image.len() < NEW_HEADER_FIELD + 4 {
        None
    } else {
        let offset = le_u32(image.subrange(NEW_HEADER_FIELD as int, NEW_HEADER_FIELD + 4));
        if offset + NEW_HEADER_SIZE <= image.len() {
            Some(offset)
        } else {
            None
        }
    }
}

/// The `u32` that the second header keeps at `field`.
pub open spec fn header_u32(image: Seq<u8>, field: int) -> int
    recommends
        new_header_at(image) is Some,
{
    le_u32(image.subrange(new_header_at(image)->0 + field, new_header_at(image)->0 + field + 4))
}

/// The address that the image is loaded at.
pub open spec fn image_base(image: Seq<u8>) -> int
    recommends
        new_header_at(image) is Some,
{
    le_u64(
        image.subrange(
            new_header_at(image)->0 + IMAGE_BASE_FIELD,
            new_header_at(image)->0 + IMAGE_BASE_FIELD + 8,
        ),
    )
}

/// The image can be handed to the scanner: it is shorter than 4 GiB, its
/// second header lies at a multiple of eight, and the code range of that header
/// begins within the image and does not end before it begins.
pub open spec fn scannable(image: Seq<u8>) -> bool {
    &&& image.len() <= u32::MAX
    &&& new_header_at(image) is Some ==> {
        let base = header_u32(image, BASE_OF_CODE_FIELD as int);
        let size = header_u32(image, SIZE_OF_CODE_FIELD as int);
        &&& new_header_at(image)->0 % 8 == 0
        &&& base <= image.len()
        &&& base + size <= u32::MAX
    }
}

/// A character of a plain pattern: a hexadecimal digit, a blank, `?` for a
/// byte left open, `$` for a relative jump to follow, `{` and `}` around what is
/// matched at the jump's target, or `'` to save the place.
pub open spec fn is_plain(c: char) -> bool {
    ||| '0' <= c <= '9'
    ||| 'a' <= c <= 'f'
    ||| 'A' <= c <= 'F'
    ||| c == ' '
    ||| c == '?'
    ||| c == '$'
    ||| c == '{'
    ||| c == '}'
    ||| c == '\''
}

/// The text can be handed to the scanner as a pattern: it is short and made
/// of plain characters.
pub open spec fn plain_pattern(text: Seq<char>) -> bool {
    &&& text.len() <= PATTERN_LIMIT
    &&& forall|i: int| 0 <= i < text.len() ==> is_plain(#[trigger] text[i])
}

/// The address of what lies at the relative address `rva` of the image: the
/// image's base plus `rva`, for an `rva` other than 0 and within the size of
/// the image.
pub open spec fn va_of(image: Seq<u8>, rva: u32) -> Option<u64> {
    if rva != 0 && new_header_at(image) is Some && rva < header_u32(
        image,
        SIZE_OF_IMAGE_FIELD as int,
    ) && image_base(image) + rva <= u64::MAX {
        Some((image_base(image) + rva) as u64)
    } else {
        None
    }
}

/// Calls `Scanner::finds_code` of `pelite` on a view that
/// `pelite::pe64::PeView::from_bytes` makes of a copy of the image, with the
/// pattern that `pelite::pattern::parse` reads from the text and a save array
/// of `slots` entries. The array comes back where text and image are accepted
/// and the pattern matches the code range at exactly one place.
///
/// Nothing is claimed of what the array holds. `pelite` reads the headers in
/// place and refuses an image that does not lie at an address divisible by
/// four; the copy lies where the allocator puts it.
#[verifier::external_body]
fn find_code(image: &[u8], pattern: &str, slots: usize) -> (saved: Option<Vec<u32>>)
    requires
        scannable(image@),
        plain_pattern(pattern@),
        slots <= SLOT_LIMIT,
    ensures
        saved matches Some(save) ==> save@.len() == slots,
{
    let atoms = pelite::pattern::parse(pattern).ok()?;
    let copy = image.to_vec();
    let view = pelite::pe64::PeView::from_bytes(&copy).ok()?;
    let mut save = vec![0u32; slots];
    if pelite::pe64::Pe::scanner(view).finds_code(&atoms, &mut save) {
        Some(save)
    } else {
        None
    }
}

fn header_offset(image: &[u8]) -> (r: Option<usize>)
    ensures
        r is Some <==> new_header_at(image@) is Some,
        r matches Some(offset) ==> new_header_at(image@) == Some(offset as int) && offset
            + NEW_HEADER_SIZE <= image.len(),
{
    if image.len() < NEW_HEADER_FIELD + 4 {
        return None;
    }
    let offset = decode_u32(image, NEW_HEADER_FIELD) as u64;
    if offset + NEW_HEADER_SIZE as u64 <= image.len() as u64 {
        Some(offset as usize)
    } else {
        None
    }
}

/// Whether the image can be handed to the scanner.
pub fn is_scannable(image: &[u8]) -> (r: bool)
    ensures
        r == scannable(image@),
{
    if image.len() as u64 > u32::MAX as u64 {
        return false;
    }
    match header_offset(image) {
        None => true,
        Some(offset) => {
            let base = decode_u32(image, offset + BASE_OF_CODE_FIELD) as u64;
            let size = decode_u32(image, offset + SIZE_OF_CODE_FIELD) as u64;
            offset % 8 == 0 && base <= image.len() as u64 && base + size <= u32::MAX as u64
        },
    }
}

/// Whether the text can be handed to the scanner as a pattern.
pub fn is_plain_pattern(text: &str) -> (r: bool)
    ensures
        r == plain_pattern(text@),
{
    broadcast use vstd::string::is_ascii_spec_bytes;

    if !text.is_ascii() {
        proof {
            if plain_pattern(text@) {
                assert forall|i: int| 0 <= i < text@.len() implies '\0' <= #[trigger] text@[i]
                    <= '\u{7f}' by {
                    assert(is_plain(text@[i]));
                }
            }
        }
        return false;
    }
    let bytes = text.as_bytes();
    if bytes.len() > PATTERN_LIMIT {
        return false;
    }
    let mut i: usize = 0;
    while i < bytes.len()
        invariant
            i <= bytes@.len(),
            bytes@.len() == text@.len(),
            forall|k: int| 0 <= k < text@.len() ==> '\0' <= #[trigger] text@[k] <= '\u{7f}',
            forall|k: int| 0 <= k < text@.len() ==> #[trigger] bytes@[k] == text@[k] as u8,
            forall|k: int| 0 <= k < i ==> is_plain(#[trigger] text@[k]),
        decreases bytes@.len() - i,
    {
        let b = bytes[i];
        let ghost c = text@[i as int];
        assert(b == c as u8);
        let plain = (0x30 <= b && b <= 0x39) || (0x61 <= b && b <= 0x66) || (0x41 <= b && b
            <= 0x46) || b == 0x20 || b == 0x3f || b == 0x24 || b == 0x7b || b == 0x7d || b
            == 0x27;
        assert(plain == is_plain(c));
        if !plain {
            return false;
        }
        i += 1;
    }
    true
}

/// The address of what lies at the relative address `rva` of the image.
pub fn rva_to_va(image: &[u8], rva: u32) -> (r: Option<u64>)
    ensures
        r == va_of(image@, rva),
{
    if rva == 0 {
        return None;
    }
    let offset = match header_offset(image) {
        Some(o) => o,
        None => {
            return None;
        },
    };
    let size_of_image = decode_u32(image, offset + SIZE_OF_IMAGE_FIELD);
    if rva >= size_of_image {
        return None;
    }
    let base = decode_u64(image, offset + IMAGE_BASE_FIELD);
    base.checked_add(rva as u64)
}

/// The address that the entry `capture_index` of a save array stands for.
pub fn capture_va(image: &[u8], saved: &Vec<u32>, capture_index: usize) -> (r: Option<u64>)
    ensures
        r == if capture_index < saved@.len() {
            va_of(image@, saved@[capture_index as int])
        } else {
            None
        },
{
    if capture_index < saved.len() {
        rva_to_va(image, saved[capture_index])
    } else {
        None
    }
}

/// The address that the pattern's capture `capture_index` has in the image,
/// where the pattern matches the image's code at exactly one place. An image or
/// a pattern that cannot be handed to the scanner gives `None`, and so does a
/// capture that no pattern can have.
pub fn resolve_pattern_va(image: &[u8], pattern: &str, capture_index: usize) -> (r: Option<u64>)
    ensures
        r matches Some(va) ==> exists|rva: u32| va_of(image@, rva) == Some(va),
        !scannable(image@) || !plain_pattern(pattern@) || capture_index >= SLOT_LIMIT ==> r is None,
{
    if capture_index >= SLOT_LIMIT || !is_scannable(image) || !is_plain_pattern(pattern) {
        return None;
    }
    match find_code(image, pattern, capture_index + 1) {
        Some(saved) => capture_va(image, &saved, capture_index),
        None => None,
    }
}

} // verus!
