//! The patcher of Elden Ring, found in the game's code by signatures.

use crate::game::entry_points::{is_unmatched, unmatched};
use crate::game::game_data::{elden_ring, elden_ring_profile};
use crate::game::manager::{extracted, planned, FxrManager, PatchOrder};
use crate::game::pattern::{
    match_instruction_pattern, resolved, MatchView, PatternCache, PatternResult,
};
use crate::game::registry::{ids_of, registry};
use crate::game::resolver::capture_target;
use crate::memory::{MemoryView, Region};
use crate::protocol::FxrManagerError;
use vstd::prelude::*;

verus! {

/// The call that fetches the allocator of effect records, with its displacement
/// in a capture.
pub const GET_ALLOCATOR_PATTERN: &'static str =
    "01001... 10001011 01000100 ..100100 00101000 10001011 01000000 00000100 11000001 11101000 00010000 10000011 11111000 00000101 01110100 ........ 00110011 11000000 11101001 ........ ........ ........ ........ 11101000 [........ ........ ........ ........]";

/// The opening of the routine that patches the offsets of a record.
pub const PATCH_OFFSETS_PATTERN: &'static str =
    "01001... 10001001 01000100 ..100100 00011000 01001... 10001001 01010100 ..100100 00010000 01001... 10001001 01001100 ..100100 00001000 01010111 01001... 10000001 11101100 00000000 00000001 00000000 00000000 01001... 10001011 11111100 10111001 01000000 00000000 00000000 00000000 10111000 11001100 11001100 11001100 11001100 11110011 10101011 01001... 10001011 10001100 ..100100 00010000 00000001 00000000 00000000 01001... 10001011 10000100 ..100100 00010000 00000001 00000000 00000000";

/// The opening of the routine that prepares a record.
pub const WTF_FXR_PATTERN: &'static str =
    "01001... 10001001 01001100 ..100100 00001000 01010111 01001... 10000001 11101100 00110000 00000001 00000000 00000000 01001... 10001011 11111100 10111001 01001100 00000000 00000000 00000000 10111000 11001100 11001100 11001100 11001100 11110011 10101011 01001... 10001011 10001100 ..100100 01000000 00000001 00000000 00000000 01001... 10001011 10000100 ..100100 01000000 00000001 00000000 00000000";

/// The opening of the routine that patches the offsets of a record, as
/// Nightreign has it.
pub const PATCH_OFFSETS_PATTERN_NR: &'static str =
    "01001... 10001001 01000100 ..100100 00011000 01001... 10001001 01010100 ..100100 00010000 01001... 10001001 01001100 ..100100 00001000 01010111 01001... 10000001 11101100 00000000 00000001 00000000 00000000 01001... 10001011 10000100 ..100100 00010000 00000001 00000000 00000000 01001... 10001001 00000100 ..100100 01001... 10001011 10000100 ..100100 00011000 00000001 00000000 00000000";

/// The opening of the routine that prepares a record, as Nightreign has it.
pub const WTF_FXR_PATTERN_NR: &'static str =
    "01001... 10001001 01001100 ..100100 00001000 01001... 10001101 01100100 ..100100 11111000 01001... 10001001 00111100 ..100100 01001... 10000001 11101100 00110000 00000001 00000000 00000000 01001... 10001101 01111100 ..100100 00100000 10111001 01000100 00000000 00000000 00000000 10111000 11001100 11001100 11001100 11001100 11110011 10101011 01001... 10001011 10001100 ..100100 01000000 00000001 00000000 00000000 01001... 10001011 10000100 ..100100 01000000 00000001 00000000 00000000";

/// The three signatures of Elden Ring are three different texts.
pub proof fn lemma_signatures_differ()
    ensures
        GET_ALLOCATOR_PATTERN@ != PATCH_OFFSETS_PATTERN@,
        GET_ALLOCATOR_PATTERN@ != WTF_FXR_PATTERN@,
        PATCH_OFFSETS_PATTERN@ != WTF_FXR_PATTERN@,
{
    reveal_strlit(
        "01001... 10001011 01000100 ..100100 00101000 10001011 01000000 00000100 11000001 11101000 00010000 10000011 11111000 00000101 01110100 ........ 00110011 11000000 11101001 ........ ........ ........ ........ 11101000 [........ ........ ........ ........]",
    );
    reveal_strlit(
        "01001... 10001001 01000100 ..100100 00011000 01001... 10001001 01010100 ..100100 00010000 01001... 10001001 01001100 ..100100 00001000 01010111 01001... 10000001 11101100 00000000 00000001 00000000 00000000 01001... 10001011 11111100 10111001 01000000 00000000 00000000 00000000 10111000 11001100 11001100 11001100 11001100 11110011 10101011 01001... 10001011 10001100 ..100100 00010000 00000001 00000000 00000000 01001... 10001011 10000100 ..100100 00010000 00000001 00000000 00000000",
    );
    reveal_strlit(
        "01001... 10001001 01001100 ..100100 00001000 01010111 01001... 10000001 11101100 00110000 00000001 00000000 00000000 01001... 10001011 11111100 10111001 01001100 00000000 00000000 00000000 10111000 11001100 11001100 11001100 11001100 11110011 10101011 01001... 10001011 10001100 ..100100 01000000 00000001 00000000 00000000 01001... 10001011 10000100 ..100100 01000000 00000001 00000000 00000000",
    );
    assert(GET_ALLOCATOR_PATTERN@.len() == 253);
    assert(PATCH_OFFSETS_PATTERN@.len() == 485);
    assert(WTF_FXR_PATTERN@.len() == 395);
}

/// What a question for `text` gets: what the cache keeps for it, else what the
/// search in `sections` gives.
pub open spec fn answer(cache: PatternCache, sections: Seq<Region<'_>>, text: Seq<char>) -> Option<
    MatchView,
> {
    match cache.kept(text) {
        Some(known) => known,
        None => resolved(sections, text),
    }
}

/// The addresses of the three routines of the game that a patch calls.
#[derive(Clone, Copy, Debug, PartialEq, Eq)]
pub struct EldenRingFxrManager {
    pub patch_fxr_offset: u64,
    pub prepare_fxr: u64,
    pub fxr_allocator_getter: u64,
}

/// The routine that the call matched by `found` leads to: the target of the
/// displacement in its first capture.
pub open spec fn call_target(found: MatchView) -> Option<u64> {
    if found.captures.len() == 0 {
        None
    } else {
        capture_target(found.captures[0])
    }
}

/// What the three answers make: the manager, or the failure of the first
/// signature that did not lead to an address.
pub open spec fn manager_from(
    get_allocator: Option<MatchView>,
    patch_offsets: Option<MatchView>,
    prepare: Option<MatchView>,
    r: Result<EldenRingFxrManager, FxrManagerError>,
) -> bool {
    match get_allocator {
        None => is_unmatched(r, "get_allocator_call"@),
        Some(call) => match call_target(call) {
            None => is_unmatched(r, "get_allocator"@),
            Some(getter) => match patch_offsets {
                None => is_unmatched(r, "patch_fxr"@),
                Some(patch) => match prepare {
                    None => is_unmatched(r, "wtf_fxr"@),
                    Some(wtf) => r == Ok::<EldenRingFxrManager, FxrManagerError>(
                        EldenRingFxrManager {
                            patch_fxr_offset: patch.location as u64,
                            prepare_fxr: wtf.location as u64,
                            fxr_allocator_getter: getter,
                        },
                    ),
                },
            },
        },
    }
}

fn target_of(found: &PatternResult) -> (r: Option<u64>)
    ensures
        r == call_target(found@),
{
    if found.captures.len() == 0 {
        None
    } else {
        found.captures[0].target()
    }
}

impl EldenRingFxrManager {
    /// Finds the three routines in the code sections `sections`: the allocator
    /// getter as the target of the call that its signature matches, the two
    /// fix-ups where their signatures match. A signature that was searched for
    /// before is not searched for again.
    pub fn new(cache: &mut PatternCache, sections: &Vec<Region<'_>>) -> (r: Result<
        EldenRingFxrManager,
        FxrManagerError,
    >)
        ensures
            manager_from(
                answer(*old(cache), sections@, GET_ALLOCATOR_PATTERN@),
                answer(*old(cache), sections@, PATCH_OFFSETS_PATTERN@),
                answer(*old(cache), sections@, WTF_FXR_PATTERN@),
                r,
            ),
            final(cache).kept(GET_ALLOCATOR_PATTERN@) == Some(
                answer(*old(cache), sections@, GET_ALLOCATOR_PATTERN@),
            ),
            r is Ok ==> final(cache).kept(PATCH_OFFSETS_PATTERN@) == Some(
                answer(*old(cache), sections@, PATCH_OFFSETS_PATTERN@),
            ) && final(cache).kept(WTF_FXR_PATTERN@) == Some(
                answer(*old(cache), sections@, WTF_FXR_PATTERN@),
            ),
            forall|other: Seq<char>|
                other != GET_ALLOCATOR_PATTERN@ && other != PATCH_OFFSETS_PATTERN@ && other
                    != WTF_FXR_PATTERN@ ==> final(cache).kept(other) == old(cache).kept(other),
    {
        proof {
            lemma_signatures_differ();
        }
        let get_allocator = match match_instruction_pattern(cache, sections, GET_ALLOCATOR_PATTERN) {
            Some(matched) => match target_of(&matched) {
                Some(address) => address,
                None => {
                    return Err(unmatched("get_allocator"));
                },
            },
            None => {
                return Err(unmatched("get_allocator_call"));
            },
        };
        let patch_fxr_offset = match match_instruction_pattern(
            cache,
            sections,
            PATCH_OFFSETS_PATTERN,
        ) {
            Some(matched) => matched.location,
            None => {
                return Err(unmatched("patch_fxr"));
            },
        };
        let prepare_fxr = match match_instruction_pattern(cache, sections, WTF_FXR_PATTERN) {
            Some(matched) => matched.location,
            None => {
                return Err(unmatched("wtf_fxr"));
            },
        };
        Ok(EldenRingFxrManager { patch_fxr_offset, prepare_fxr, fxr_allocator_getter: get_allocator })
    }

    /// Plans the replacement of the record whose identifier `fxr_bytes` carry,
    /// as [`FxrManager::patch`] does for Elden Ring.
    pub fn patch(&self, view: &MemoryView<'_>, cssfx: Option<u64>, fxr_bytes: &[u8]) -> (r: Result<
        Option<PatchOrder>,
        FxrManagerError,
    >)
        ensures
            r == planned(*view, cssfx, elden_ring_profile().layout, fxr_bytes@),
    {
        let manager = FxrManager { game: elden_ring() };
        manager.patch(view, cssfx, fxr_bytes)
    }

    /// The record `fxr_id`, copied out of the registry, as
    /// [`FxrManager::extract`] does for Elden Ring.
    pub fn extract(&self, view: &MemoryView<'_>, cssfx: Option<u64>, fxr_id: u32) -> (r: Result<
        Vec<u8>,
        FxrManagerError,
    >)
        ensures
            cssfx is None ==> r == Err::<Vec<u8>, FxrManagerError>(
                FxrManagerError::CSSfxInstanceMissing,
            ),
            cssfx is Some ==> match extracted(
                *view,
                cssfx->0,
                elden_ring_profile().layout,
                fxr_id,
            ) {
                Ok(bytes) => r matches Ok(found) && found@ == bytes,
                Err(e) => r == Err::<Vec<u8>, FxrManagerError>(e),
            },
    {
        let manager = FxrManager { game: elden_ring() };
        manager.extract(view, cssfx, fxr_id)
    }

    /// The identifiers of the records in the registry, in link order, as
    /// [`FxrManager::list_ids`] does for Elden Ring.
    pub fn list_ids(&self, view: &MemoryView<'_>, cssfx: Option<u64>) -> (r: Result<
        Vec<u32>,
        FxrManagerError,
    >)
        ensures
            cssfx is None ==> r == Err::<Vec<u32>, FxrManagerError>(
                FxrManagerError::CSSfxInstanceMissing,
            ),
            cssfx is Some ==> (r matches Ok(ids) && ids@ == ids_of(
                *view,
                registry(*view, cssfx->0, elden_ring_profile().layout),
            )),
    {
        let manager = FxrManager { game: elden_ring() };
        manager.list_ids(view, cssfx)
    }
}

} // verus!
