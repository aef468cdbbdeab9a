//! From a captured displacement to the address it points to.

use crate::game::pattern::{CaptureView, PatternCapture};
use crate::memory::{decode_u32, le_u32};
use vstd::prelude::*;

verus! {

/// A 32-bit number read as signed.
pub open spec fn signed32(x: u32) -> int {
    if x >= 0x8000_0000 {
        x - 0x1_0000_0000
    } else {
        x as int
    }
}

/// The address that lies `displacement` bytes from `next_addr`, the address
/// space taken as a ring.
pub open spec fn resolved_address(next_addr: u64, displacement: i32) -> u64 {
    let sum = next_addr + displacement;
    if sum > u64::MAX {
        (sum - 0x1_0000_0000_0000_0000) as u64
    } else if sum < 0 {
        (sum + 0x1_0000_0000_0000_0000) as u64
    } else {
        sum as u64
    }
}

/// Resolves a relative displacement: the address that lies `displacement`
/// bytes from the address `next_addr` of the instruction that follows it.
pub fn resolve(next_addr: u64, displacement: i32) -> (r: u64)
    ensures
        r == resolved_address(next_addr, displacement),
{
    next_addr.wrapping_add_signed(displacement as i64)
}

/// The resolved address is the sum of address and displacement, taken modulo
/// the size of the address space.
pub proof fn lemma_resolve_wraps(next_addr: u64, displacement: i32)
    ensures
        resolved_address(next_addr, displacement) as int == (next_addr + displacement)
            % 0x1_0000_0000_0000_0000,
{
    let sum = next_addr + displacement;
    if sum > u64::MAX {
        assert((sum - 0x1_0000_0000_0000_0000) % 0x1_0000_0000_0000_0000 == sum
            % 0x1_0000_0000_0000_0000) by {
            vstd::arithmetic::div_mod::lemma_mod_sub_multiples_vanish(
                sum,
                0x1_0000_0000_0000_0000,
            );
        }
        vstd::arithmetic::div_mod::lemma_small_mod(
            (sum - 0x1_0000_0000_0000_0000) as nat,
            0x1_0000_0000_0000_0000,
        );
    } else if sum < 0 {
        assert((sum + 0x1_0000_0000_0000_0000) % 0x1_0000_0000_0000_0000 == sum
            % 0x1_0000_0000_0000_0000) by {
            vstd::arithmetic::div_mod::lemma_mod_add_multiples_vanish(
                sum,
                0x1_0000_0000_0000_0000,
            );
        }
        vstd::arithmetic::div_mod::lemma_small_mod(
            (sum + 0x1_0000_0000_0000_0000) as nat,
            0x1_0000_0000_0000_0000,
        );
    } else {
        vstd::arithmetic::div_mod::lemma_small_mod(sum as nat, 0x1_0000_0000_0000_0000);
    }
}

/// The displacement that the bytes of a capture spell: four bytes, read as a
/// signed little-endian number.
pub open spec fn displacement_in(bytes: Seq<u8>) -> Option<i32> {
    if bytes.len() == 4 {
        Some(signed32(le_u32(bytes) as u32) as i32)
    } else {
        None
    }
}

/// The displacement that the bytes of a capture spell, or `None` where they
/// are not four.
pub fn displacement_of(bytes: &[u8]) -> (r: Option<i32>)
    ensures
        r == displacement_in(bytes@),
{
    if bytes.len() != 4 {
        return None;
    }
    assert(bytes@.subrange(0, 4) =~= bytes@);
    let raw: i64 = decode_u32(bytes, 0) as i64;
    if raw >= 0x8000_0000 {
        Some((raw - 0x1_0000_0000) as i32)
    } else {
        Some(raw as i32)
    }
}

/// The address that a captured displacement points to: the displacement is
/// counted from the address behind its four bytes.
pub open spec fn capture_target(capture: CaptureView) -> Option<u64> {
    match displacement_in(capture.bytes) {
        Some(displacement) => Some(
            resolved_address(
                if capture.location + 4 > u64::MAX {
                    (capture.location + 4 - 0x1_0000_0000_0000_0000) as u64
                } else {
                    (capture.location + 4) as u64
                },
                displacement,
            ),
        ),
        None => None,
    }
}

impl PatternCapture {
    /// The address that this capture points to, for a capture of four bytes.
    pub fn target(&self) -> (r: Option<u64>)
        ensures
            r == capture_target(self@),
    {
        match displacement_of(self.bytes.as_slice()) {
            Some(displacement) => Some(resolve(self.location.wrapping_add(4), displacement)),
            None => None,
        }
    }
}

} // verus!
