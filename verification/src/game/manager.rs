//! The operations on the effect registry of a game: listing, extracting, and
//! the planning of replacements.

use crate::game::game_data::{
    get_game_data_by_name, named_from, supported_games, GameData, RegistryLayout,
};
use crate::game::registry::{
    find_node, fxr_at, ids_of, index_nodes, lemma_absent_id, record_at, record_of, registry,
    wrapper_at, CSSfx, FxrListNode, FxrWrapper,
};
use crate::memory::{decode_u32, le_u32, MemoryView};
use crate::protocol::FxrManagerError;
use std::collections::HashMap;
use vstd::prelude::*;
use vstd::string::StringExecFns;

verus! {

/// What extracting the record `id` from the registry under `cssfx` gives.
pub open spec fn extracted(
    view: MemoryView<'_>,
    cssfx: u64,
    layout: RegistryLayout,
    id: u32,
) -> Result<Seq<u8>, FxrManagerError> {
    match find_node(view, registry(view, cssfx, layout), id) {
        None => Err(FxrManagerError::FxrNotFound(id)),
        Some(node) => match wrapper_at(view, node.fxr_wrapper) {
            None => Err(FxrManagerError::FxrNotFound(id)),
            Some(wrapper) => match record_at(view, wrapper.fxr) {
                None => Err(FxrManagerError::InvalidFxr),
                Some(bytes) => Ok(bytes),
            },
        },
    }
}

/// Extracting a record whose identifier no node of the registry carries
/// reports that it was not found.
pub proof fn lemma_absent_record_is_not_found(
    view: MemoryView<'_>,
    cssfx: u64,
    layout: RegistryLayout,
    id: u32,
)
    requires
        !ids_of(view, registry(view, cssfx, layout)).contains(id),
    ensures
        extracted(view, cssfx, layout, id) == Err::<Seq<u8>, FxrManagerError>(
            FxrManagerError::FxrNotFound(id),
        ),
{
    lemma_absent_id(view, registry(view, cssfx, layout), id);
}

/// What extracting the record `id` in a batch gives: the record of the last
/// node with that identifier, if there is one and it can be decoded.
pub open spec fn batch_entry(
    view: MemoryView<'_>,
    cssfx: u64,
    layout: RegistryLayout,
    id: u32,
) -> Option<Seq<u8>> {
    let index = index_nodes(view, registry(view, cssfx, layout));
    if index.contains_key(id) {
        record_of(view, index[id])
    } else {
        None
    }
}

/// The text that says that `game` has no reloading.
pub open spec fn reload_denied(game: Seq<char>) -> Seq<char> {
    "FXR reloading is not supported in "@ + game
}

/// The text that says that `game` has no extraction.
pub open spec fn extraction_denied(game: Seq<char>) -> Seq<char> {
    "FXR extraction is not supported in "@ + game
}

/// The text that says that `game` has no listing.
pub open spec fn listing_denied(game: Seq<char>) -> Seq<char> {
    "FXR listing is not supported in "@ + game
}

/// `r` is the refusal of an operation with the text `text`.
pub open spec fn is_refusal<T>(r: Result<T, FxrManagerError>, text: Seq<char>) -> bool {
    r matches Err(FxrManagerError::UnsupportedOperation(said)) && said@ == text
}

fn refusal(lead: &str, game: &str) -> (e: FxrManagerError)
    ensures
        e matches FxrManagerError::UnsupportedOperation(said) && said@ == lead@ + game@,
{
    FxrManagerError::UnsupportedOperation(String::from_str(lead).concat(game))
}

/// The operations on the registry of one game.
#[derive(Clone, Copy, Debug, PartialEq, Eq)]
pub struct FxrManager {
    pub game: GameData,
}

/// The manager of `game`, for a game that is among the supported ones.
pub fn fxr_manager_for(game: &GameData) -> (r: Result<FxrManager, FxrManagerError>)
    ensures
        named_from(supported_games(), game.name@, 0) is Some ==> r == Ok::<
            FxrManager,
            FxrManagerError,
        >(FxrManager { game: *game }),
        named_from(supported_games(), game.name@, 0) is None ==> r == Err::<
            FxrManager,
            FxrManagerError,
        >(FxrManagerError::UnsupportedGame),
{
    match get_game_data_by_name(game.name) {
        Some(_) => Ok(FxrManager { game: *game }),
        None => Err(FxrManagerError::UnsupportedGame),
    }
}

impl FxrManager {
    /// The first node of the registry under `cssfx` whose identifier is `id`.
    pub fn find(&self, view: &MemoryView<'_>, cssfx: u64, id: u32) -> (r: Option<FxrListNode>)
        ensures
            r == find_node(*view, registry(*view, cssfx, self.game.layout), id),
    {
        let singleton = CSSfx { address: cssfx, layout: self.game.layout };
        let mut walker = singleton.fxr_definition_iter(view);
        loop
            invariant
                find_node(*view, registry(*view, cssfx, self.game.layout), id) == find_node(
                    *view,
                    walker.remaining(*view),
                    id,
                ),
            decreases walker.remaining(*view).len(),
        {
            match walker.next(view) {
                None => {
                    return None;
                },
                Some(addr) => {
                    match FxrListNode::read(view, addr) {
                        Some(node) => {
                            if node.id == id {
                                return Some(node);
                            }
                        },
                        None => {},
                    }
                },
            }
        }
    }

    /// The identifiers of the records in the registry, in link order.
    pub fn list_ids(&self, view: &MemoryView<'_>, cssfx: Option<u64>) -> (r: Result<
        Vec<u32>,
        FxrManagerError,
    >)
        ensures
            !self.game.features.extract ==> is_refusal(r, listing_denied(self.game.name@)),
            self.game.features.extract && cssfx is None ==> r == Err::<Vec<u32>, FxrManagerError>(
                FxrManagerError::CSSfxInstanceMissing,
            ),
            self.game.features.extract && cssfx is Some ==> (r matches Ok(ids) && ids@ == ids_of(
                *view,
                registry(*view, cssfx->0, self.game.layout),
            )),
    {
        if !self.game.features.extract {
            return Err(refusal("FXR listing is not supported in ", self.game.name));
        }
        let address = match cssfx {
            Some(a) => a,
            None => {
                return Err(FxrManagerError::CSSfxInstanceMissing);
            },
        };
        let singleton = CSSfx { address, layout: self.game.layout };
        let mut walker = singleton.fxr_definition_iter(view);
        let mut ids: Vec<u32> = Vec::new();
        let ghost all = registry(*view, address, self.game.layout);
        let ghost mut done: Seq<u64> = Seq::empty();
        proof {
            assert(done + walker.remaining(*view) =~= all);
        }
        loop
            invariant
                done + walker.remaining(*view) == all,
                ids@ == ids_of(*view, done),
            ensures
                ids@ == ids_of(*view, all),
            decreases walker.remaining(*view).len(),
        {
            let ghost before = walker.remaining(*view);
            match walker.next(view) {
                None => {
                    proof {
                        assert(done + before =~= done);
                    }
                    break ;
                },
                Some(addr) => {
                    proof {
                        let grown = done.push(addr);
                        assert(grown.drop_last() =~= done);
                        assert(grown + before.drop_first() =~= done + before);
                        done = grown;
                    }
                    match FxrListNode::read(view, addr) {
                        Some(node) => {
                            ids.push(node.id);
                        },
                        None => {},
                    }
                },
            }
        }
        Ok(ids)
    }

    /// The record `fxr_id`, copied out of the registry.
    pub fn extract(&self, view: &MemoryView<'_>, cssfx: Option<u64>, fxr_id: u32) -> (r: Result<
        Vec<u8>,
        FxrManagerError,
    >)
        ensures
            !self.game.features.extract ==> is_refusal(r, extraction_denied(self.game.name@)),
            self.game.features.extract && cssfx is None ==> r == Err::<Vec<u8>, FxrManagerError>(
                FxrManagerError::CSSfxInstanceMissing,
            ),
            self.game.features.extract && cssfx is Some ==> match extracted(
                *view,
                cssfx->0,
                self.game.layout,
                fxr_id,
            ) {
                Ok(bytes) => r matches Ok(found) && found@ == bytes,
                Err(e) => r == Err::<Vec<u8>, FxrManagerError>(e),
            },
    {
        if !self.game.features.extract {
            return Err(refusal("FXR extraction is not supported in ", self.game.name));
        }
        let address = match cssfx {
            Some(a) => a,
            None => {
                return Err(FxrManagerError::CSSfxInstanceMissing);
            },
        };
        let node = match self.find(view, address, fxr_id) {
            Some(n) => n,
            None => {
                return Err(FxrManagerError::FxrNotFound(fxr_id));
            },
        };
        let wrapper = match FxrWrapper::read(view, node.fxr_wrapper) {
            Some(w) => w,
            None => {
                return Err(FxrManagerError::FxrNotFound(fxr_id));
            },
        };
        match fxr_at(view, wrapper.fxr) {
            Some(bytes) => Ok(bytes),
            None => Err(FxrManagerError::InvalidFxr),
        }
    }

    /// The records `fxr_ids`, copied out of the registry in one pass over it.
    /// The answers stand in the order of the questions; a record that is not
    /// there, or cannot be decoded, gives `None`.
    pub fn extract_multiple(
        &self,
        view: &MemoryView<'_>,
        cssfx: Option<u64>,
        fxr_ids: &Vec<u32>,
    ) -> (r: Result<Vec<Option<Vec<u8>>>, FxrManagerError>)
        ensures
            !self.game.features.extract ==> is_refusal(r, extraction_denied(self.game.name@)),
            self.game.features.extract && cssfx is None ==> r == Err::<
                Vec<Option<Vec<u8>>>,
                FxrManagerError,
            >(FxrManagerError::CSSfxInstanceMissing),
            self.game.features.extract && cssfx is Some ==> (r matches Ok(found) && found@.len()
                == fxr_ids@.len() && forall|i: int|
                0 <= i < fxr_ids@.len() ==> answers(
                    #[trigger] found@[i],
                    batch_entry(*view, cssfx->0, self.game.layout, fxr_ids@[i]),
                )),
    {
        broadcast use vstd::std_specs::hash::group_hash_axioms;

        if !self.game.features.extract {
            return Err(refusal("FXR extraction is not supported in ", self.game.name));
        }
        let address = match cssfx {
            Some(a) => a,
            None => {
                return Err(FxrManagerError::CSSfxInstanceMissing);
            },
        };
        let singleton = CSSfx { address, layout: self.game.layout };
        let mut walker = singleton.fxr_definition_iter(view);
        let mut fxr_map: HashMap<u32, FxrListNode> = HashMap::new();
        let ghost all = registry(*view, address, self.game.layout);
        let ghost mut done: Seq<u64> = Seq::empty();
        proof {
            assert(done + walker.remaining(*view) =~= all);
        }
        loop
            invariant
                done + walker.remaining(*view) == all,
                fxr_map@ == index_nodes(*view, done),
            ensures
                fxr_map@ == index_nodes(*view, all),
            decreases walker.remaining(*view).len(),
        {
            let ghost before = walker.remaining(*view);
            match walker.next(view) {
                None => {
                    proof {
                        assert(done + before =~= done);
                    }
                    break ;
                },
                Some(addr) => {
                    proof {
                        let grown = done.push(addr);
                        assert(grown.drop_last() =~= done);
                        assert(grown + before.drop_first() =~= done + before);
                        done = grown;
                    }
                    match FxrListNode::read(view, addr) {
                        Some(node) => {
                            fxr_map.insert(node.id, node);
                        },
                        None => {},
                    }
                },
            }
        }
        let mut result: Vec<Option<Vec<u8>>> = Vec::with_capacity(fxr_ids.len());
        let mut i: usize = 0;
        while i < fxr_ids.len()
            invariant
                i <= fxr_ids.len(),
                result@.len() == i,
                fxr_map@ == index_nodes(*view, registry(*view, address, self.game.layout)),
                forall|k: int|
                    0 <= k < i ==> answers(
                        #[trigger] result@[k],
                        batch_entry(*view, address, self.game.layout, fxr_ids@[k]),
                    ),
            decreases fxr_ids.len() - i,
        {
            let id = fxr_ids[i];
            let entry = match fxr_map.get(&id) {
                Some(node) => match FxrWrapper::read(view, node.fxr_wrapper) {
                    Some(wrapper) => fxr_at(view, wrapper.fxr),
                    None => None,
                },
                None => None,
            };
            result.push(entry);
            i += 1;
        }
        Ok(result)
    }
}

/// `found` holds exactly the bytes `expected`, or both are nothing.
pub open spec fn answers(found: Option<Vec<u8>>, expected: Option<Seq<u8>>) -> bool {
    match found {
        Some(bytes) => expected == Some(bytes@),
        None => expected is None,
    }
}

/// The fewest bytes that a replacement record may have: enough to hold its
/// identifier.
pub const RECORD_HEADER_SIZE: usize = 0x10;

/// Where a record keeps its identifier.
pub const RECORD_ID_OFFSET: usize = 0xc;

/// The alignment asked of the allocation that takes a replacement record.
pub const RECORD_ALIGNMENT: usize = 0x10;

/// The identifier that a record of at least 0x10 bytes carries.
pub open spec fn record_id(bytes: Seq<u8>) -> u32
    recommends
        bytes.len() >= RECORD_HEADER_SIZE,
{
    le_u32(bytes.subrange(RECORD_ID_OFFSET as int, RECORD_HEADER_SIZE as int)) as u32
}

/// The identifier that `bytes` carry, or `None` where they are too few to hold
/// one.
pub fn fxr_id(bytes: &[u8]) -> (r: Option<u32>)
    ensures
        r == if bytes@.len() < RECORD_HEADER_SIZE {
            None
        } else {
            Some(record_id(bytes@))
        },
{
    if bytes.len() < RECORD_HEADER_SIZE {
        None
    } else {
        Some(decode_u32(bytes, RECORD_ID_OFFSET))
    }
}

/// The replacement of one record, as far as it can be settled by reading: the
/// allocation to ask of the game, and the wrapper that is to point at it.
#[derive(Clone, Copy, Debug, PartialEq, Eq)]
pub struct PatchOrder {
    /// The identifier of the record.
    pub id: u32,
    /// The number of bytes to allocate and to copy.
    pub size: usize,
    /// The alignment of the allocation.
    pub alignment: usize,
    /// The address of the wrapper whose record address is rewritten, or 0
    /// where the node has none.
    pub wrapper: u64,
}

/// One thing to do to the game once the allocation for a record is there.
#[derive(Clone, Copy, Debug, PartialEq, Eq)]
pub enum PatchStep {
    /// Copy the record's bytes to `dest`.
    Copy { dest: u64, size: usize },
    /// Call the game's routine that patches the offsets in the record at
    /// `buffer`, with that address as each of its three arguments.
    PatchOffsets { buffer: u64 },
    /// Call the game's routine that prepares the record at `buffer`.
    Prepare { buffer: u64 },
    /// Write `value` as a little-endian `u64` at `at`.
    StorePointer { at: u64, value: u64 },
}

/// What is to be done once the game has allocated at `allocation` for `order`:
/// the copy, the two fix-ups, and last of all the rewrite of the wrapper. A node
/// without wrapper gets no rewrite; a null allocation gets nothing done.
pub open spec fn steps_for(order: PatchOrder, allocation: u64) -> Seq<PatchStep> {
    if allocation == 0 {
        Seq::empty()
    } else if order.wrapper == 0 {
        seq![
            PatchStep::Copy { dest: allocation, size: order.size },
            PatchStep::PatchOffsets { buffer: allocation },
            PatchStep::Prepare { buffer: allocation },
        ]
    } else {
        seq![
            PatchStep::Copy { dest: allocation, size: order.size },
            PatchStep::PatchOffsets { buffer: allocation },
            PatchStep::Prepare { buffer: allocation },
            PatchStep::StorePointer { at: order.wrapper, value: allocation },
        ]
    }
}

impl PatchOrder {
    /// What is to be done, in this order, once the game has allocated at
    /// `allocation`.
    pub fn steps(&self, allocation: u64) -> (r: Vec<PatchStep>)
        ensures
            r@ == steps_for(*self, allocation),
    {
        let mut steps: Vec<PatchStep> = Vec::new();
        if allocation != 0 {
            steps.push(PatchStep::Copy { dest: allocation, size: self.size });
            steps.push(PatchStep::PatchOffsets { buffer: allocation });
            steps.push(PatchStep::Prepare { buffer: allocation });
            if self.wrapper != 0 {
                steps.push(PatchStep::StorePointer { at: self.wrapper, value: allocation });
            }
        }
        assert(steps@ =~= steps_for(*self, allocation));
        steps
    }
}

/// What planning the replacement of one record gives, for a game that reloads:
/// an error for bytes too few to hold an identifier or a missing singleton,
/// nothing to do for a record that the registry does not hold, an order
/// otherwise.
pub open spec fn planned(
    view: MemoryView<'_>,
    cssfx: Option<u64>,
    layout: RegistryLayout,
    bytes: Seq<u8>,
) -> Result<Option<PatchOrder>, FxrManagerError> {
    if bytes.len() < RECORD_HEADER_SIZE {
        Err(FxrManagerError::InvalidFxr)
    } else {
        match cssfx {
            None => Err(FxrManagerError::CSSfxInstanceMissing),
            Some(address) => match find_node(
                view,
                registry(view, address, layout),
                record_id(bytes),
            ) {
                None => Ok(None),
                Some(node) => Ok(
                    Some(
                        PatchOrder {
                            id: record_id(bytes),
                            size: bytes.len() as usize,
                            alignment: RECORD_ALIGNMENT,
                            wrapper: node.fxr_wrapper,
                        },
                    ),
                ),
            },
        }
    }
}

/// Bytes too few to hold an identifier are refused, whatever the memory holds.
pub proof fn lemma_short_record_is_invalid(
    view: MemoryView<'_>,
    cssfx: Option<u64>,
    layout: RegistryLayout,
    bytes: Seq<u8>,
)
    requires
        bytes.len() < RECORD_HEADER_SIZE,
    ensures
        planned(view, cssfx, layout, bytes) == Err::<Option<PatchOrder>, FxrManagerError>(
            FxrManagerError::InvalidFxr,
        ),
{
}

/// The rewrite of the wrapper is the last thing done for an order: no step
/// before the last one writes to what was there before.
pub proof fn lemma_rewrite_comes_last(order: PatchOrder, allocation: u64)
    ensures
        forall|i: int|
            0 <= i < steps_for(order, allocation).len() - 1 ==> !(#[trigger] steps_for(
                order,
                allocation,
            )[i] is StorePointer),
{
}

impl FxrManager {
    /// Whether the game reloads records; the refusal where it does not.
    pub fn may_reload(&self) -> (r: Result<(), FxrManagerError>)
        ensures
            self.game.features.reload ==> r == Ok::<(), FxrManagerError>(()),
            !self.game.features.reload ==> is_refusal(r, reload_denied(self.game.name@)),
    {
        if self.game.features.reload {
            Ok(())
        } else {
            Err(refusal("FXR reloading is not supported in ", self.game.name))
        }
    }

    /// Plans the replacement of the record whose identifier `fxr_bytes` carry.
    /// Nothing is written: the order that comes back says what to allocate, and
    /// [`PatchOrder::steps`] what to do with the allocation.
    pub fn patch(&self, view: &MemoryView<'_>, cssfx: Option<u64>, fxr_bytes: &[u8]) -> (r: Result<
        Option<PatchOrder>,
        FxrManagerError,
    >)
        ensures
            !self.game.features.reload ==> is_refusal(r, reload_denied(self.game.name@)),
            self.game.features.reload ==> r == planned(*view, cssfx, self.game.layout, fxr_bytes@),
    {
        match self.may_reload() {
            Ok(_) => {},
            Err(e) => {
                return Err(e);
            },
        }
        let id = match fxr_id(fxr_bytes) {
            Some(id) => id,
            None => {
                return Err(FxrManagerError::InvalidFxr);
            },
        };
        let address = match cssfx {
            Some(a) => a,
            None => {
                return Err(FxrManagerError::CSSfxInstanceMissing);
            },
        };
        match self.find(view, address, id) {
            None => Ok(None),
            Some(node) => Ok(
                Some(
                    PatchOrder {
                        id,
                        size: fxr_bytes.len(),
                        alignment: RECORD_ALIGNMENT,
                        wrapper: node.fxr_wrapper,
                    },
                ),
            ),
        }
    }
}

} // verus!
