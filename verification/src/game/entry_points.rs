//! The routines of the game that a patch calls, and where they are found.

use crate::game::game_data::EntryPointPatterns;
use crate::game::registry::pointer_at;
use crate::game::scanner::{resolve_pattern_va, va_of};
use crate::memory::MemoryView;
use crate::protocol::FxrManagerError;
use vstd::prelude::*;
use vstd::string::StringExecFns;

verus! {

/// `r` is the failure to match the signature called `name`.
pub open spec fn is_unmatched<T>(r: Result<T, FxrManagerError>, name: Seq<char>) -> bool {
    r matches Err(FxrManagerError::InstructionPattern(said)) && said@ == name
}

/// The failure to match the signature called `name`.
pub fn unmatched(name: &str) -> (e: FxrManagerError)
    ensures
        e matches FxrManagerError::InstructionPattern(said) && said@ == name@,
{
    FxrManagerError::InstructionPattern(String::from_str(name))
}

/// The addresses of the three routines of the game that a patch calls.
#[derive(Clone, Copy, Debug, PartialEq, Eq)]
pub struct FxrEntryPoints {
    pub get_allocator: u64,
    pub patch_fxr_offsets: u64,
    pub prepare_fxr: u64,
}

/// Which save slot of a call signature holds the call's target.
pub const TARGET_CAPTURE: usize = 1;

/// What three resolved addresses make: the entry points, or the failure of
/// the first that is missing.
pub open spec fn entry_points_from(
    get_allocator: Option<u64>,
    patch_fxr_offsets: Option<u64>,
    prepare_fxr: Option<u64>,
    r: Result<FxrEntryPoints, FxrManagerError>,
) -> bool {
    match get_allocator {
        None => is_unmatched(r, "get_allocator"@),
        Some(getter) => match patch_fxr_offsets {
            None => is_unmatched(r, "patch_fxr_offsets"@),
            Some(patcher) => match prepare_fxr {
                None => is_unmatched(r, "prepare_fxr"@),
                Some(preparer) => r == Ok::<FxrEntryPoints, FxrManagerError>(
                    FxrEntryPoints {
                        get_allocator: getter,
                        patch_fxr_offsets: patcher,
                        prepare_fxr: preparer,
                    },
                ),
            },
        },
    }
}

/// Makes the entry points of three resolved addresses.
pub fn entry_points_of(
    get_allocator: Option<u64>,
    patch_fxr_offsets: Option<u64>,
    prepare_fxr: Option<u64>,
) -> (r: Result<FxrEntryPoints, FxrManagerError>)
    ensures
        entry_points_from(get_allocator, patch_fxr_offsets, prepare_fxr, r),
{
    let getter = match get_allocator {
        Some(a) => a,
        None => {
            return Err(unmatched("get_allocator"));
        },
    };
    let patcher = match patch_fxr_offsets {
        Some(a) => a,
        None => {
            return Err(unmatched("patch_fxr_offsets"));
        },
    };
    let preparer = match prepare_fxr {
        Some(a) => a,
        None => {
            return Err(unmatched("prepare_fxr"));
        },
    };
    Ok(FxrEntryPoints { get_allocator: getter, patch_fxr_offsets: patcher, prepare_fxr: preparer })
}

/// `va` is the address of a place in the image.
pub open spec fn lies_in(image: Seq<u8>, va: u64) -> bool {
    exists|rva: u32| va_of(image, rva) == Some(va)
}

/// Resolves the three call signatures of a game in its image. Each entry point
/// that comes back is the address of a place in the image; a signature that
/// leads to none gives the failure that names it.
pub fn resolve_entry_points(image: &[u8], patterns: &EntryPointPatterns) -> (r: Result<
    FxrEntryPoints,
    FxrManagerError,
>)
    ensures
        match r {
            Ok(found) => lies_in(image@, found.get_allocator) && lies_in(
                image@,
                found.patch_fxr_offsets,
            ) && lies_in(image@, found.prepare_fxr),
            Err(e) => is_unmatched(r, "get_allocator"@) || is_unmatched(r, "patch_fxr_offsets"@)
                || is_unmatched(r, "prepare_fxr"@),
        },
{
    let get_allocator = resolve_pattern_va(image, patterns.get_allocator, TARGET_CAPTURE);
    let patch_fxr_offsets = resolve_pattern_va(image, patterns.patch_offsets, TARGET_CAPTURE);
    let prepare_fxr = resolve_pattern_va(image, patterns.prepare, TARGET_CAPTURE);
    entry_points_of(get_allocator, patch_fxr_offsets, prepare_fxr)
}

/// Where the table of an allocator keeps the address of the routine that
/// allocates.
pub const ALLOCATE_SLOT_OFFSET: u64 = 0x50;

/// The address of the routine by which the allocator at `allocator`
/// allocates: the entry at 0x50 of the table that the allocator begins with.
pub open spec fn allocate_routine_at(view: MemoryView<'_>, allocator: u64) -> Option<u64> {
    match view.u64_at(allocator as int) {
        Some(table) => pointer_at(view, table, ALLOCATE_SLOT_OFFSET as int),
        None => None,
    }
}

/// The address of the routine by which the allocator at `allocator`
/// allocates.
pub fn allocate_routine(view: &MemoryView<'_>, allocator: u64) -> (r: Option<u64>)
    ensures
        r == allocate_routine_at(*view, allocator),
{
    let table = match view.read_u64(allocator) {
        Some(t) => t,
        None => {
            return None;
        },
    };
    match table.checked_add(ALLOCATE_SLOT_OFFSET) {
        Some(slot) => view.read_u64(slot),
        None => None,
    }
}

} // verus!
