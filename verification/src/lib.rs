//! Signature scanning, registry traversal and record patching over a view of
//! another program's memory.
//!
//! Every read of foreign memory goes through [`memory::MemoryView`], a list of
//! byte ranges with checked accessors. Nothing here dereferences an address:
//! the functions take bytes in and hand addresses, bytes and orders back.
//!
//! - [`memory`]: regions, views, and little-endian numbers.
//! - [`game::signature`], [`game::pattern`], [`game::resolver`]: signatures,
//!   the search for them, and the addresses that their captures point to.
//! - [`game::sections`], [`game::scanner`], [`game::entry_points`]: the code of
//!   a loaded image and the routines found in it.
//! - [`game::game_data`], [`game::detection`]: the supported games.
//! - [`game::registry`], [`game::manager`], [`game::eldenring`]: the effect
//!   registry, and listing, extracting and replacing its records.
//! - [`agent`], [`encoding`], [`protocol`], [`text`]: requests, answers and
//!   errors.
//!
//! The four functions of this module are the operations as a caller sees
//! them: [`patch`], [`extract`], [`extract_multiple`] and [`list_ids`].

use crate::game::game_data::{named_from, supported_games, GameData, RegistryLayout};
use crate::game::manager::{
    answers, batch_entry, extracted, extraction_denied, fxr_manager_for, is_refusal,
    listing_denied, planned, reload_denied, PatchOrder,
};
use crate::game::registry::{ids_of, registry};
use crate::memory::MemoryView;
use crate::protocol::FxrManagerError;
use vstd::prelude::*;

pub mod agent;
pub mod encoding;
pub mod game;
pub mod memory;
pub mod protocol;
pub mod text;

verus! {

/// What planning the replacement of several records gives.
#[derive(Debug, PartialEq, Eq)]
pub struct PatchPlan {
    /// One entry for each record that was planned, in the order given: the
    /// order for it, or `None` for a record that the registry does not hold.
    pub orders: Vec<Option<PatchOrder>>,
    /// `Ok` where every record was planned, else the error of the first record
    /// that was not; no record behind that one was looked at.
    pub outcome: Result<(), FxrManagerError>,
}

/// The orders for `records` from index `from` up to the first record that
/// cannot be planned, and the error of that record.
pub open spec fn planned_from(
    view: MemoryView<'_>,
    cssfx: Option<u64>,
    layout: RegistryLayout,
    records: Seq<Vec<u8>>,
    from: int,
) -> (Seq<Option<PatchOrder>>, Result<(), FxrManagerError>)
    decreases records.len() - from,
{
    if from < 0 || from >= records.len() {
        (Seq::empty(), Ok(()))
    } else {
        match planned(view, cssfx, layout, records[from]@) {
            Err(e) => (Seq::empty(), Err(e)),
            Ok(order) => {
                let rest = planned_from(view, cssfx, layout, records, from + 1);
                (seq![order] + rest.0, rest.1)
            },
        }
    }
}

/// Where a record is too short to hold an identifier, the plan ends with it:
/// the orders are those of the records before it, and the outcome is its
/// refusal.
pub proof fn lemma_plan_ends_at_short_record(
    view: MemoryView<'_>,
    cssfx: Option<u64>,
    layout: RegistryLayout,
    records: Seq<Vec<u8>>,
    at: int,
)
    requires
        0 <= at < records.len(),
        records[at]@.len() < 0x10,
    ensures
        planned_from(view, cssfx, layout, records, at) == (
            Seq::<Option<PatchOrder>>::empty(),
            Err::<(), FxrManagerError>(FxrManagerError::InvalidFxr),
        ),
{
}

/// `game` is one of the supported games.
pub open spec fn is_supported(game: GameData) -> bool {
    named_from(supported_games(), game.name@, 0) is Some
}

/// `plan` is what planning the replacement of `records` gives.
pub open spec fn is_plan_for(
    view: MemoryView<'_>,
    game: GameData,
    cssfx: Option<u64>,
    records: Seq<Vec<u8>>,
    plan: PatchPlan,
) -> bool {
    if !is_supported(game) {
        plan.orders@.len() == 0 && plan.outcome == Err::<(), FxrManagerError>(
            FxrManagerError::UnsupportedGame,
        )
    } else if !game.features.reload {
        plan.orders@.len() == 0 && is_refusal(plan.outcome, reload_denied(game.name@))
    } else {
        (plan.orders@, plan.outcome) == planned_from(view, cssfx, game.layout, records, 0)
    }
}

/// What extracting the record `id` gives in a game that has extraction.
pub open spec fn extraction(
    view: MemoryView<'_>,
    game: GameData,
    cssfx: Option<u64>,
    id: u32,
) -> Result<Seq<u8>, FxrManagerError> {
    if !is_supported(game) {
        Err(FxrManagerError::UnsupportedGame)
    } else {
        match cssfx {
            None => Err(FxrManagerError::CSSfxInstanceMissing),
            Some(address) => extracted(view, address, game.layout, id),
        }
    }
}

/// What extracting the records `ids` in one pass gives in a game that has
/// extraction.
pub open spec fn batch(
    view: MemoryView<'_>,
    game: GameData,
    cssfx: Option<u64>,
    ids: Seq<u32>,
) -> Result<Seq<Option<Seq<u8>>>, FxrManagerError> {
    if !is_supported(game) {
        Err(FxrManagerError::UnsupportedGame)
    } else {
        match cssfx {
            None => Err(FxrManagerError::CSSfxInstanceMissing),
            Some(address) => Ok(
                Seq::new(ids.len(), |i: int| batch_entry(view, address, game.layout, ids[i])),
            ),
        }
    }
}

/// What listing the records gives in a game that has extraction.
pub open spec fn listing(view: MemoryView<'_>, game: GameData, cssfx: Option<u64>) -> Result<
    Seq<u32>,
    FxrManagerError,
> {
    if !is_supported(game) {
        Err(FxrManagerError::UnsupportedGame)
    } else {
        match cssfx {
            None => Err(FxrManagerError::CSSfxInstanceMissing),
            Some(address) => Ok(ids_of(view, registry(view, address, game.layout))),
        }
    }
}

/// `r` holds the bytes, or is the error, that `expected` is.
pub open spec fn gives_bytes(r: Result<Vec<u8>, FxrManagerError>, expected: Result<
    Seq<u8>,
    FxrManagerError,
>) -> bool {
    match expected {
        Ok(bytes) => r matches Ok(found) && found@ == bytes,
        Err(e) => r == Err::<Vec<u8>, FxrManagerError>(e),
    }
}

/// `r` holds the answers, or is the error, that `expected` is.
pub open spec fn gives_batch(r: Result<Vec<Option<Vec<u8>>>, FxrManagerError>, expected: Result<
    Seq<Option<Seq<u8>>>,
    FxrManagerError,
>) -> bool {
    match expected {
        Ok(entries) => r matches Ok(found) && found@.len() == entries.len() && forall|i: int|
            0 <= i < entries.len() ==> answers(#[trigger] found@[i], entries[i]),
        Err(e) => r == Err::<Vec<Option<Vec<u8>>>, FxrManagerError>(e),
    }
}

/// `r` holds the identifiers, or is the error, that `expected` is.
pub open spec fn gives_ids(r: Result<Vec<u32>, FxrManagerError>, expected: Result<
    Seq<u32>,
    FxrManagerError,
>) -> bool {
    match expected {
        Ok(ids) => r matches Ok(found) && found@ == ids,
        Err(e) => r == Err::<Vec<u32>, FxrManagerError>(e),
    }
}

/// Plans the replacement of each of `fxrs` in the registry under `cssfx`, one
/// after the other, up to the first that fails. Nothing is written.
pub fn patch(
    view: &MemoryView<'_>,
    game_data: &GameData,
    cssfx: Option<u64>,
    fxrs: &Vec<Vec<u8>>,
) -> (plan: PatchPlan)
    ensures
        is_plan_for(*view, *game_data, cssfx, fxrs@, plan),
{
    let mut orders: Vec<Option<PatchOrder>> = Vec::new();
    let manager = match fxr_manager_for(game_data) {
        Ok(m) => m,
        Err(e) => {
            return PatchPlan { orders, outcome: Err(e) };
        },
    };
    match manager.may_reload() {
        Ok(_) => {},
        Err(e) => {
            return PatchPlan { orders, outcome: Err(e) };
        },
    }
    let mut i: usize = 0;
    let ghost whole = planned_from(*view, cssfx, game_data.layout, fxrs@, 0);
    proof {
        assert(orders@ + whole.0 =~= whole.0);
    }
    while i < fxrs.len()
        invariant
            i <= fxrs.len(),
            manager.game == *game_data,
            is_supported(*game_data),
            game_data.features.reload,
            whole == planned_from(*view, cssfx, game_data.layout, fxrs@, 0),
            whole.0 == orders@ + planned_from(*view, cssfx, game_data.layout, fxrs@, i as int).0,
            whole.1 == planned_from(*view, cssfx, game_data.layout, fxrs@, i as int).1,
        decreases fxrs.len() - i,
    {
        let ghost rest = planned_from(*view, cssfx, game_data.layout, fxrs@, i + 1);
        match manager.patch(view, cssfx, fxrs[i].as_slice()) {
            Err(e) => {
                proof {
                    assert(orders@ + Seq::<Option<PatchOrder>>::empty() =~= orders@);
                }
                return PatchPlan { orders, outcome: Err(e) };
            },
            Ok(order) => {
                proof {
                    assert(orders@.push(order) + rest.0 =~= orders@ + (seq![order] + rest.0));
                }
                orders.push(order);
            },
        }
        i += 1;
    }
    proof {
        assert(orders@ + Seq::<Option<PatchOrder>>::empty() =~= orders@);
    }
    PatchPlan { orders, outcome: Ok(()) }
}

/// The record `id`, copied out of the registry under `cssfx`.
pub fn extract(view: &MemoryView<'_>, game_data: &GameData, cssfx: Option<u64>, id: u32) -> (r:
    Result<Vec<u8>, FxrManagerError>)
    ensures
        !game_data.features.extract && is_supported(*game_data) ==> is_refusal(
            r,
            extraction_denied(game_data.name@),
        ),
        game_data.features.extract || !is_supported(*game_data) ==> gives_bytes(
            r,
            extraction(*view, *game_data, cssfx, id),
        ),
{
    match fxr_manager_for(game_data) {
        Ok(manager) => manager.extract(view, cssfx, id),
        Err(e) => Err(e),
    }
}

/// The records `ids`, copied out of the registry under `cssfx` in one pass over
/// it. The answers stand in the order of the questions; a record that is not
/// there, or cannot be decoded, gives `None`.
pub fn extract_multiple(
    view: &MemoryView<'_>,
    game_data: &GameData,
    cssfx: Option<u64>,
    ids: &Vec<u32>,
) -> (r: Result<Vec<Option<Vec<u8>>>, FxrManagerError>)
    ensures
        !game_data.features.extract && is_supported(*game_data) ==> is_refusal(
            r,
            extraction_denied(game_data.name@),
        ),
        game_data.features.extract || !is_supported(*game_data) ==> gives_batch(
            r,
            batch(*view, *game_data, cssfx, ids@),
        ),
{
    match fxr_manager_for(game_data) {
        Ok(manager) => manager.extract_multiple(view, cssfx, ids),
        Err(e) => Err(e),
    }
}

/// The identifiers of the records in the registry under `cssfx`, in link order.
pub fn list_ids(view: &MemoryView<'_>, game_data: &GameData, cssfx: Option<u64>) -> (r: Result<
    Vec<u32>,
    FxrManagerError,
>)
    ensures
        !game_data.features.extract && is_supported(*game_data) ==> is_refusal(
            r,
            listing_denied(game_data.name@),
        ),
        game_data.features.extract || !is_supported(*game_data) ==> gives_ids(
            r,
            listing(*view, *game_data, cssfx),
        ),
{
    match fxr_manager_for(game_data) {
        Ok(manager) => manager.list_ids(view, cssfx),
        Err(e) => Err(e),
    }
}

} // verus!
