//! What the agent answers to a request.
//!
//! A request names one of six things to do and carries its parameters as a JSON
//! object. What can be settled by reading is settled here; what has to be done
//! to the game comes back as an order.

use crate::encoding::{base64_decoding, base64_encoding, decode, encode};
use crate::game::game_data::GameData;
use crate::game::manager::{answers, extraction_denied, listing_denied, reload_denied};
use crate::memory::MemoryView;
use crate::protocol::{manager_message, FxrManagerError};
use crate::text::{decimal, decimal_string, same_text};
use crate::{
    batch, extract, extract_multiple, extraction, is_plan_for, list_ids, listing, patch, PatchPlan,
};
use vstd::prelude::*;
use vstd::string::StringExecFns;

verus! {

/// What a request asks for.
#[derive(Clone, Copy, Debug, PartialEq, Eq)]
pub enum RequestType {
    ReloadFXRs,
    SetResidentSFX,
    SetSpEffectSFX,
    GetFXR,
    GetFXRs,
    ListFXRs,
    Unknown,
}

impl Default for RequestType {
    fn default() -> (r: RequestType)
        ensures
            r == RequestType::Unknown,
    {
        RequestType::Unknown
    }
}

/// The request type that goes by `name`.
pub open spec fn request_type_of(name: Seq<char>) -> RequestType {
    if name == "reload_fxrs"@ {
        RequestType::ReloadFXRs
    } else if name == "set_resident_sfx"@ {
        RequestType::SetResidentSFX
    } else if name == "set_sp_effect_sfx"@ {
        RequestType::SetSpEffectSFX
    } else if name == "get_fxr"@ {
        RequestType::GetFXR
    } else if name == "get_fxrs"@ {
        RequestType::GetFXRs
    } else if name == "list_fxrs"@ {
        RequestType::ListFXRs
    } else {
        RequestType::Unknown
    }
}

/// The request type that goes by `name`; a name that is none of the six is
/// `Unknown`.
pub fn request_type_named(name: &str) -> (r: RequestType)
    ensures
        r == request_type_of(name@),
{
    if same_text(name, "reload_fxrs") {
        RequestType::ReloadFXRs
    } else if same_text(name, "set_resident_sfx") {
        RequestType::SetResidentSFX
    } else if same_text(name, "set_sp_effect_sfx") {
        RequestType::SetSpEffectSFX
    } else if same_text(name, "get_fxr") {
        RequestType::GetFXR
    } else if same_text(name, "get_fxrs") {
        RequestType::GetFXRs
    } else if same_text(name, "list_fxrs") {
        RequestType::ListFXRs
    } else {
        RequestType::Unknown
    }
}

/// Whether requests of this type are answered one after the other, in the
/// order in which they come: those that change the game are. The others may be
/// answered beside them.
pub fn answered_in_turn(request_type: RequestType) -> (r: bool)
    ensures
        r == (request_type == RequestType::SetResidentSFX || request_type
            == RequestType::SetSpEffectSFX || request_type == RequestType::ReloadFXRs),
{
    match request_type {
        RequestType::SetResidentSFX | RequestType::SetSpEffectSFX | RequestType::ReloadFXRs => true,
        _ => false,
    }
}

/// A number of a JSON text: one that is not negative and fits `u64`, a
/// negative one that fits `i64`, or any other.
#[derive(Clone, Copy, Debug, PartialEq, Eq)]
pub enum JsonNumber {
    Unsigned(u64),
    Negative(i64),
    Float,
}

/// A JSON value.
#[derive(Debug, PartialEq, Eq)]
pub enum Json {
    Null,
    Bool(bool),
    Number(JsonNumber),
    Text(String),
    Array(Vec<Json>),
    Object(Vec<(String, Json)>),
}

/// The value of the first of `members` whose key is `key`.
pub open spec fn member_from(members: Seq<(String, Json)>, key: Seq<char>, from: int) -> Option<
    Json,
>
    decreases members.len() - from,
{
    if from < 0 || from >= members.len() {
        None
    } else if members[from].0@ == key {
        Some(members[from].1)
    } else {
        member_from(members, key, from + 1)
    }
}

impl Json {
    /// The member `key` of an object.
    pub open spec fn member(self, key: Seq<char>) -> Option<Json> {
        match self {
            Json::Object(members) => member_from(members@, key, 0),
            _ => None,
        }
    }

    /// The number, where this is one that is not negative and fits `u64`.
    pub open spec fn unsigned(self) -> Option<u64> {
        match self {
            Json::Number(JsonNumber::Unsigned(n)) => Some(n),
            _ => None,
        }
    }

    /// The number, where this is a whole one that fits `i64`.
    pub open spec fn signed(self) -> Option<i64> {
        match self {
            Json::Number(JsonNumber::Unsigned(n)) => if n <= i64::MAX {
                Some(n as i64)
            } else {
                None
            },
            Json::Number(JsonNumber::Negative(n)) => Some(n),
            _ => None,
        }
    }

    /// The member `key` of an object.
    pub fn get(&self, key: &str) -> (r: Option<&Json>)
        ensures
            r is Some <==> self.member(key@) is Some,
            r matches Some(found) ==> self.member(key@) == Some(*found),
    {
        match self {
            Json::Object(members) => {
                let mut i: usize = 0;
                while i < members.len()
                    invariant
                        i <= members@.len(),
                        self.member(key@) == member_from(members@, key@, i as int),
                    decreases members@.len() - i,
                {
                    if same_text(members[i].0.as_str(), key) {
                        return Some(&members[i].1);
                    }
                    i += 1;
                }
                None
            },
            _ => None,
        }
    }

    /// The number, where this is one that is not negative and fits `u64`.
    pub fn as_u64(&self) -> (r: Option<u64>)
        ensures
            r == self.unsigned(),
    {
        match self {
            Json::Number(JsonNumber::Unsigned(n)) => Some(*n),
            _ => None,
        }
    }

    /// The number, where this is a whole one that fits `i64`.
    pub fn as_i64(&self) -> (r: Option<i64>)
        ensures
            r == self.signed(),
    {
        match self {
            Json::Number(JsonNumber::Unsigned(n)) => if *n <= i64::MAX as u64 {
                Some(*n as i64)
            } else {
                None
            },
            Json::Number(JsonNumber::Negative(n)) => Some(*n),
            _ => None,
        }
    }
}

/// The 32 low bits of `n`.
pub open spec fn low_u32(n: int) -> u32 {
    (n % 0x1_0000_0000) as u32
}

/// The 32 low bits of `n`, read as signed.
pub open spec fn low_i32(n: int) -> i32 {
    let low = n % 0x1_0000_0000;
    if low >= 0x8000_0000 {
        (low - 0x1_0000_0000) as i32
    } else {
        low as i32
    }
}

/// The 16 low bits of `n`, read as signed.
pub open spec fn low_i16(n: int) -> i16 {
    let low = n % 0x1_0000;
    if low >= 0x8000 {
        (low - 0x1_0000) as i16
    } else {
        low as i16
    }
}

/// The 32 low bits of `n`.
pub fn truncate_u32(n: u64) -> (r: u32)
    ensures
        r == low_u32(n as int),
{
    (n % 0x1_0000_0000) as u32
}

/// The 32 low bits of `n`, read as signed.
pub fn truncate_i32(n: u64) -> (r: i32)
    ensures
        r == low_i32(n as int),
{
    let low: i64 = (n % 0x1_0000_0000) as i64;
    if low >= 0x8000_0000 {
        (low - 0x1_0000_0000) as i32
    } else {
        low as i32
    }
}

/// The 16 low bits of `n`, read as signed.
pub fn truncate_i16(n: u64) -> (r: i16)
    ensures
        r == low_i16(n as int),
{
    let low: i32 = (n % 0x1_0000) as i32;
    if low >= 0x8000 {
        (low - 0x1_0000) as i16
    } else {
        low as i16
    }
}

/// The 32 low bits of a signed `n`, read as signed.
pub fn truncate_signed(n: i64) -> (r: i32)
    ensures
        r == low_i32(n as int),
{
    if n >= 0 {
        truncate_i32(n as u64)
    } else {
        let distance: u64 = (-(n + 1)) as u64;
        let low: i64 = 0xffff_ffff - (distance % 0x1_0000_0000) as i64;
        assert(low == n % 0x1_0000_0000) by {
            let below = distance % 0x1_0000_0000;
            let whole = distance / 0x1_0000_0000;
            assert(distance == 0x1_0000_0000 * whole + below) by {
                vstd::arithmetic::div_mod::lemma_fundamental_div_mod(
                    distance as int,
                    0x1_0000_0000,
                );
            }
            assert(n == 0x1_0000_0000 * (-whole - 1) + low);
            vstd::arithmetic::div_mod::lemma_fundamental_div_mod_converse(
                n as int,
                0x1_0000_0000,
                -whole - 1,
                low as int,
            );
        }
        if low >= 0x8000_0000 {
            (low - 0x1_0000_0000) as i32
        } else {
            low as i32
        }
    }
}

/// A request as it comes in: who asks, for what, and with which parameters.
#[derive(Debug, PartialEq, Eq)]
pub struct Request {
    pub request_id: String,
    pub request_type: RequestType,
    pub params: Json,
}

/// A change of the game's parameters, to be made by the one who keeps them.
#[derive(Clone, Copy, Debug, PartialEq, Eq)]
pub enum ParamsRequestType {
    SetResidentSFX { weapon_id: u32, sfx_id: i32, dmy_id: i32 },
    SetSpEffectSFX { sp_effect_id: u32, sfx_id: i32, dmy_id: i16, target_vfx_id: Option<i32> },
}

/// What an answer carries besides its message.
#[derive(Debug, PartialEq, Eq)]
pub enum ResponseData {
    /// One record, in base 64.
    Fxr(String),
    /// Records in base 64, in the order asked for, `None` for each that could
    /// not be had.
    Fxrs(Vec<Option<String>>),
    /// The identifiers of the records in the registry.
    Ids(Vec<u32>),
}

/// The answer to a request.
#[derive(Debug, PartialEq, Eq)]
pub struct Response {
    pub request_id: String,
    pub success: bool,
    pub message: String,
    pub data: Option<ResponseData>,
}

/// What an answer carries, as a value.
pub enum DataView {
    Fxr(Seq<char>),
    Fxrs(Seq<Option<Seq<char>>>),
    Ids(Seq<u32>),
}

/// An answer as a value.
pub struct ResponseView {
    pub request_id: Seq<char>,
    pub success: bool,
    pub message: Seq<char>,
    pub data: Option<DataView>,
}

/// The text that `text` holds, if it holds one.
pub open spec fn text_view(text: Option<String>) -> Option<Seq<char>> {
    match text {
        Some(t) => Some(t@),
        None => None,
    }
}

impl View for ResponseData {
    type V = DataView;

    open spec fn view(&self) -> DataView {
        match self {
            ResponseData::Fxr(text) => DataView::Fxr(text@),
            ResponseData::Fxrs(texts) => DataView::Fxrs(
                Seq::new(texts@.len(), |i: int| text_view(texts@[i])),
            ),
            ResponseData::Ids(ids) => DataView::Ids(ids@),
        }
    }
}

impl View for Response {
    type V = ResponseView;

    open spec fn view(&self) -> ResponseView {
        ResponseView {
            request_id: self.request_id@,
            success: self.success,
            message: self.message@,
            data: match self.data {
                Some(data) => Some(data@),
                None => None,
            },
        }
    }
}

/// The answer that something went wrong.
pub open spec fn failure(request_id: Seq<char>, message: Seq<char>) -> ResponseView {
    ResponseView { request_id, success: false, message, data: None }
}

/// The answer that all went well.
pub open spec fn success(
    request_id: Seq<char>,
    message: Seq<char>,
    data: Option<DataView>,
) -> ResponseView {
    ResponseView { request_id, success: true, message, data }
}

fn fail(request_id: String, message: String) -> (r: Response)
    ensures
        r@ == failure(request_id@, message@),
{
    Response { request_id, success: false, message, data: None }
}

fn fail_with(request_id: String, lead: &str, tail: &str) -> (r: Response)
    ensures
        r@ == failure(request_id@, lead@ + tail@),
{
    fail(request_id, String::from_str(lead).concat(tail))
}

/// The names of the six request types, as a request writes them.
pub open spec fn type_names_text() -> Seq<char> {
    "reload_fxrs, set_resident_sfx, set_sp_effect_sfx, get_fxr, get_fxrs, list_fxrs"@
}

/// The text that says that `game` has no change of parameters.
pub open spec fn params_denied(game: Seq<char>) -> Seq<char> {
    "Parameter modification is not supported in "@ + game
}

/// The text that says that the parameter `name` is missing or no number.
pub open spec fn missing_number(name: Seq<char>) -> Seq<char> {
    "Missing or invalid "@ + name + " parameter"@
}

/// The number that the member `key` of the parameters holds.
pub open spec fn number_in(params: Json, key: Seq<char>) -> Option<u64> {
    match params.member(key) {
        Some(value) => value.unsigned(),
        None => None,
    }
}

/// The whole number that the member `key` of the parameters holds.
pub open spec fn signed_in(params: Json, key: Seq<char>) -> Option<i64> {
    match params.member(key) {
        Some(value) => value.signed(),
        None => None,
    }
}

fn number_param(params: &Json, key: &str) -> (r: Option<u64>)
    ensures
        r == number_in(*params, key@),
{
    match params.get(key) {
        Some(value) => value.as_u64(),
        None => None,
    }
}

fn missing(request_id: String, name: &str) -> (r: Response)
    ensures
        r@ == failure(request_id@, missing_number(name@)),
{
    fail(request_id, String::from_str("Missing or invalid ").concat(name).concat(" parameter"))
}

/// The records that the texts among `items` encode, from index `from` on, or
/// the complaint about the first text that encodes none. What is no text
/// counts for nothing.
pub open spec fn records_in(items: Seq<Json>, from: int) -> Result<Seq<Seq<u8>>, Seq<char>>
    decreases items.len() - from,
{
    if from < 0 || from >= items.len() {
        Ok(Seq::empty())
    } else {
        match items[from] {
            Json::Text(text) => match base64_decoding(text@) {
                Err(complaint) => Err(complaint),
                Ok(bytes) => match records_in(items, from + 1) {
                    Err(complaint) => Err(complaint),
                    Ok(rest) => Ok(seq![bytes] + rest),
                },
            },
            _ => records_in(items, from + 1),
        }
    }
}

/// The bytes of each of `records`.
pub open spec fn contents(records: Seq<Vec<u8>>) -> Seq<Seq<u8>> {
    Seq::new(records.len(), |i: int| records[i]@)
}

/// Decodes the texts among `items`, in their order, up to the first that is
/// no base 64.
pub fn decode_records(items: &Vec<Json>) -> (r: Result<Vec<Vec<u8>>, String>)
    ensures
        match records_in(items@, 0) {
            Ok(records) => r matches Ok(found) && contents(found@) == records,
            Err(complaint) => r matches Err(said) && said@ == complaint,
        },
{
    let mut records: Vec<Vec<u8>> = Vec::new();
    let mut i: usize = 0;
    proof {
        if records_in(items@, 0) is Ok {
            assert(contents(records@) + records_in(items@, 0)->Ok_0 =~= records_in(
                items@,
                0,
            )->Ok_0);
        }
    }
    while i < items.len()
        invariant
            i <= items@.len(),
            records_in(items@, 0) is Err ==> records_in(items@, i as int) == records_in(items@, 0),
            records_in(items@, 0) is Ok ==> records_in(items@, i as int) is Ok && records_in(
                items@,
                0,
            )->Ok_0 == contents(records@) + records_in(items@, i as int)->Ok_0,
        decreases items@.len() - i,
    {
        match &items[i] {
            Json::Text(text) => {
                match decode(text.as_str()) {
                    Err(complaint) => {
                        return Err(complaint);
                    },
                    Ok(bytes) => {
                        let ghost before = contents(records@);
                        let ghost rest = records_in(items@, i + 1);
                        records.push(bytes);
                        proof {
                            assert(contents(records@) =~= before.push(bytes@));
                            if rest is Ok {
                                assert(before.push(bytes@) + rest->Ok_0 =~= before + (seq![bytes@]
                                    + rest->Ok_0));
                            }
                        }
                    },
                }
            },
            _ => {},
        }
        i += 1;
    }
    proof {
        assert(contents(records@) + Seq::<Seq<u8>>::empty() =~= contents(records@));
    }
    Ok(records)
}

/// The identifiers that the numbers among `items` give, in their order. What
/// is no number that fits `u64` counts for nothing; of a number its 32 low bits
/// count.
pub open spec fn ids_in(items: Seq<Json>) -> Seq<u32>
    decreases items.len(),
{
    if items.len() == 0 {
        Seq::empty()
    } else {
        let before = ids_in(items.drop_last());
        match items.last().unsigned() {
            Some(n) => before.push(low_u32(n as int)),
            None => before,
        }
    }
}

/// Collects the identifiers that the numbers among `items` give.
pub fn collect_ids(items: &Vec<Json>) -> (r: Vec<u32>)
    ensures
        r@ == ids_in(items@),
{
    let mut ids: Vec<u32> = Vec::new();
    let mut i: usize = 0;
    assert(items@.take(0) =~= Seq::<Json>::empty());
    while i < items.len()
        invariant
            i <= items@.len(),
            ids@ == ids_in(items@.take(i as int)),
        decreases items@.len() - i,
    {
        proof {
            assert(items@.take(i + 1).drop_last() =~= items@.take(i as int));
            assert(items@.take(i + 1).last() == items@[i as int]);
        }
        match items[i].as_u64() {
            Some(n) => {
                ids.push(truncate_u32(n));
            },
            None => {},
        }
        i += 1;
    }
    assert(items@.take(items@.len() as int) =~= items@);
    ids
}

/// The records in base 64, `None` for each that is none.
pub open spec fn encoded(entries: Seq<Option<Seq<u8>>>) -> Seq<Option<Seq<char>>> {
    Seq::new(
        entries.len(),
        |i: int|
            match entries[i] {
                Some(bytes) => Some(base64_encoding(bytes)),
                None => None,
            },
    )
}

fn encode_all(entries: &Vec<Option<Vec<u8>>>, Ghost(expected): Ghost<Seq<Option<Seq<u8>>>>) -> (r:
    Vec<Option<String>>)
    requires
        entries@.len() == expected.len(),
        forall|i: int| 0 <= i < expected.len() ==> answers(
            #[trigger] entries@[i],
            expected[i],
        ),
    ensures
        Seq::new(r@.len(), |i: int| text_view(r@[i])) == encoded(expected),
{
    let mut texts: Vec<Option<String>> = Vec::new();
    let mut i: usize = 0;
    while i < entries.len()
        invariant
            i <= entries@.len(),
            entries@.len() == expected.len(),
            forall|k: int| 0 <= k < expected.len() ==> answers(
                #[trigger] entries@[k],
                expected[k],
            ),
            texts@.len() == i,
            forall|k: int| 0 <= k < i ==> text_view(#[trigger] texts@[k]) == encoded(expected)[k],
        decreases entries@.len() - i,
    {
        assert(answers(entries@[i as int], expected[i as int]));
        let text = match &entries[i] {
            Some(bytes) => Some(encode(bytes.as_slice())),
            None => None,
        };
        texts.push(text);
        i += 1;
    }
    assert(Seq::new(texts@.len(), |i: int| text_view(texts@[i])) =~= encoded(expected));
    texts
}

/// What handling a request comes to.
#[derive(Debug, PartialEq, Eq)]
pub enum Handled {
    /// The answer is there.
    Done(Response),
    /// Records are to be replaced as planned. Once the orders of the plan are
    /// carried out, [`patch_response`] gives the answer.
    Patch { request_id: String, records: Vec<Vec<u8>>, plan: PatchPlan },
    /// A change of parameters is to be sent on. Once that is tried,
    /// [`params_response`] gives the answer.
    Params { request_id: String, request: ParamsRequestType },
}

/// What handling a request to replace records comes to.
pub open spec fn reload_handled(
    request: Request,
    game: GameData,
    view: MemoryView<'_>,
    cssfx: Option<u64>,
    r: Handled,
) -> bool {
    let id = request.request_id@;
    if !game.features.reload {
        r matches Handled::Done(response) && response@ == failure(id, reload_denied(game.name@))
    } else {
        match request.params.member("fxrs"@) {
            None => r matches Handled::Done(response) && response@ == failure(
                id,
                "Missing fxrs parameter"@,
            ),
            Some(Json::Array(items)) => match records_in(items@, 0) {
                Err(complaint) => r matches Handled::Done(response) && response@ == failure(
                    id,
                    "Failed to decode base64 FXR: "@ + complaint,
                ),
                Ok(decoded) => r matches Handled::Patch { request_id, records, plan }
                    && request_id@ == id && contents(records@) == decoded && is_plan_for(
                    view,
                    game,
                    cssfx,
                    records@,
                    plan,
                ),
            },
            Some(_) => r matches Handled::Done(response) && response@ == failure(
                id,
                "Invalid fxrs parameter: expected array"@,
            ),
        }
    }
}

/// What handling a request to set the resident effect of a weapon comes to.
pub open spec fn resident_handled(request: Request, game: GameData, r: Handled) -> bool {
    let id = request.request_id@;
    let params = request.params;
    if !game.features.params {
        r matches Handled::Done(response) && response@ == failure(id, params_denied(game.name@))
    } else if number_in(params, "weapon"@) is None {
        r matches Handled::Done(response) && response@ == failure(id, missing_number("weapon"@))
    } else if number_in(params, "sfx"@) is None {
        r matches Handled::Done(response) && response@ == failure(id, missing_number("sfx"@))
    } else if number_in(params, "dmy"@) is None {
        r matches Handled::Done(response) && response@ == failure(id, missing_number("dmy"@))
    } else {
        r matches Handled::Params { request_id, request: change } && request_id@ == id && change
            == (ParamsRequestType::SetResidentSFX {
            weapon_id: low_u32(number_in(params, "weapon"@)->0 as int),
            sfx_id: low_i32(number_in(params, "sfx"@)->0 as int),
            dmy_id: low_i32(number_in(params, "dmy"@)->0 as int),
        })
    }
}

/// What handling a request to set the effect of a special effect comes to.
pub open spec fn sp_effect_handled(request: Request, game: GameData, r: Handled) -> bool {
    let id = request.request_id@;
    let params = request.params;
    if !game.features.params {
        r matches Handled::Done(response) && response@ == failure(id, params_denied(game.name@))
    } else if number_in(params, "spEffect"@) is None {
        r matches Handled::Done(response) && response@ == failure(id, missing_number("spEffect"@))
    } else if number_in(params, "sfx"@) is None {
        r matches Handled::Done(response) && response@ == failure(id, missing_number("sfx"@))
    } else if number_in(params, "dmy"@) is None {
        r matches Handled::Done(response) && response@ == failure(id, missing_number("dmy"@))
    } else {
        r matches Handled::Params { request_id, request: change } && request_id@ == id && change
            == (ParamsRequestType::SetSpEffectSFX {
            sp_effect_id: low_u32(number_in(params, "spEffect"@)->0 as int),
            sfx_id: low_i32(number_in(params, "sfx"@)->0 as int),
            dmy_id: low_i16(number_in(params, "dmy"@)->0 as int),
            target_vfx_id: match signed_in(params, "vfx"@) {
                Some(n) => Some(low_i32(n as int)),
                None => None,
            },
        })
    }
}

/// The answer to a request for one record.
pub open spec fn get_answer(
    request: Request,
    game: GameData,
    view: MemoryView<'_>,
    cssfx: Option<u64>,
) -> ResponseView {
    let id = request.request_id@;
    if !game.features.extract {
        failure(id, extraction_denied(game.name@))
    } else {
        match number_in(request.params, "id"@) {
            None => failure(id, missing_number("id"@)),
            Some(n) => match extraction(view, game, cssfx, low_u32(n as int)) {
                Err(e) => failure(id, "Failed to extract FXR: "@ + manager_message(e)),
                Ok(bytes) => success(
                    id,
                    "Successfully extracted FXR"@,
                    Some(DataView::Fxr(base64_encoding(bytes))),
                ),
            },
        }
    }
}

/// The answer to a request for several records.
pub open spec fn get_many_answer(
    request: Request,
    game: GameData,
    view: MemoryView<'_>,
    cssfx: Option<u64>,
) -> ResponseView {
    let id = request.request_id@;
    if !game.features.extract {
        failure(id, extraction_denied(game.name@))
    } else {
        match request.params.member("ids"@) {
            Some(Json::Array(items)) => match batch(view, game, cssfx, ids_in(items@)) {
                Err(e) => failure(id, "Failed to extract FXRs: "@ + manager_message(e)),
                Ok(entries) => success(
                    id,
                    "Successfully extracted FXRs"@,
                    Some(DataView::Fxrs(encoded(entries))),
                ),
            },
            _ => failure(id, "Missing or invalid ids parameter"@),
        }
    }
}

/// The answer to a request for the list of records.
pub open spec fn list_answer(
    request: Request,
    game: GameData,
    view: MemoryView<'_>,
    cssfx: Option<u64>,
) -> ResponseView {
    let id = request.request_id@;
    if !game.features.extract {
        failure(id, listing_denied(game.name@))
    } else {
        match listing(view, game, cssfx) {
            Err(e) => failure(id, "Failed to list FXRs: "@ + manager_message(e)),
            Ok(ids) => success(id, "Successfully listed FXRs"@, Some(DataView::Ids(ids))),
        }
    }
}

/// What handling `request` comes to.
pub open spec fn handled(
    request: Request,
    game: GameData,
    view: MemoryView<'_>,
    cssfx: Option<u64>,
    r: Handled,
) -> bool {
    match request.request_type {
        RequestType::ReloadFXRs => reload_handled(request, game, view, cssfx, r),
        RequestType::SetResidentSFX => resident_handled(request, game, r),
        RequestType::SetSpEffectSFX => sp_effect_handled(request, game, r),
        RequestType::GetFXR => r matches Handled::Done(response) && response@ == get_answer(
            request,
            game,
            view,
            cssfx,
        ),
        RequestType::GetFXRs => r matches Handled::Done(response) && response@ == get_many_answer(
            request,
            game,
            view,
            cssfx,
        ),
        RequestType::ListFXRs => r matches Handled::Done(response) && response@ == list_answer(
            request,
            game,
            view,
            cssfx,
        ),
        RequestType::Unknown => r matches Handled::Done(response) && response@ == failure(
            request.request_id@,
            "Invalid request type. Valid types are: "@ + type_names_text(),
        ),
    }
}

fn handle_reload(
    request: Request,
    game_data: &GameData,
    view: &MemoryView<'_>,
    cssfx: Option<u64>,
) -> (r: Handled)
    ensures
        reload_handled(request, *game_data, *view, cssfx, r),
{
    if !game_data.features.reload {
        return Handled::Done(
            fail_with(request.request_id, "FXR reloading is not supported in ", game_data.name),
        );
    }
    let records = match request.params.get("fxrs") {
        None => {
            return Handled::Done(
                fail(request.request_id, String::from_str("Missing fxrs parameter")),
            );
        },
        Some(Json::Array(items)) => match decode_records(items) {
            Ok(records) => records,
            Err(complaint) => {
                return Handled::Done(
                    fail_with(request.request_id, "Failed to decode base64 FXR: ", complaint.as_str()),
                );
            },
        },
        Some(_) => {
            return Handled::Done(
                fail(
                    request.request_id,
                    String::from_str("Invalid fxrs parameter: expected array"),
                ),
            );
        },
    };
    let plan = patch(view, game_data, cssfx, &records);
    Handled::Patch { request_id: request.request_id, records, plan }
}

fn handle_resident(request: Request, game_data: &GameData) -> (r: Handled)
    ensures
        resident_handled(request, *game_data, r),
{
    if !game_data.features.params {
        return Handled::Done(
            fail_with(
                request.request_id,
                "Parameter modification is not supported in ",
                game_data.name,
            ),
        );
    }
    let weapon_id = match number_param(&request.params, "weapon") {
        Some(id) => truncate_u32(id),
        None => {
            return Handled::Done(missing(request.request_id, "weapon"));
        },
    };
    let sfx_id = match number_param(&request.params, "sfx") {
        Some(id) => truncate_i32(id),
        None => {
            return Handled::Done(missing(request.request_id, "sfx"));
        },
    };
    let dmy_id = match number_param(&request.params, "dmy") {
        Some(id) => truncate_i32(id),
        None => {
            return Handled::Done(missing(request.request_id, "dmy"));
        },
    };
    Handled::Params {
        request_id: request.request_id,
        request: ParamsRequestType::SetResidentSFX { weapon_id, sfx_id, dmy_id },
    }
}

fn handle_sp_effect(request: Request, game_data: &GameData) -> (r: Handled)
    ensures
        sp_effect_handled(request, *game_data, r),
{
    if !game_data.features.params {
        return Handled::Done(
            fail_with(
                request.request_id,
                "Parameter modification is not supported in ",
                game_data.name,
            ),
        );
    }
    let sp_effect_id = match number_param(&request.params, "spEffect") {
        Some(id) => truncate_u32(id),
        None => {
            return Handled::Done(missing(request.request_id, "spEffect"));
        },
    };
    let sfx_id = match number_param(&request.params, "sfx") {
        Some(id) => truncate_i32(id),
        None => {
            return Handled::Done(missing(request.request_id, "sfx"));
        },
    };
    let dmy_id = match number_param(&request.params, "dmy") {
        Some(id) => truncate_i16(id),
        None => {
            return Handled::Done(missing(request.request_id, "dmy"));
        },
    };
    let target_vfx_id = match request.params.get("vfx") {
        Some(value) => match value.as_i64() {
            Some(id) => Some(truncate_signed(id)),
            None => None,
        },
        None => None,
    };
    Handled::Params {
        request_id: request.request_id,
        request: ParamsRequestType::SetSpEffectSFX { sp_effect_id, sfx_id, dmy_id, target_vfx_id },
    }
}

fn handle_get(request: Request, game_data: &GameData, view: &MemoryView<'_>, cssfx: Option<u64>) -> (r:
    Response)
    ensures
        r@ == get_answer(request, *game_data, *view, cssfx),
{
    if !game_data.features.extract {
        return fail_with(request.request_id, "FXR extraction is not supported in ", game_data.name);
    }
    let fxr_id = match number_param(&request.params, "id") {
        Some(id) => truncate_u32(id),
        None => {
            return missing(request.request_id, "id");
        },
    };
    match extract(view, game_data, cssfx, fxr_id) {
        Err(e) => {
            let said = e.message();
            fail_with(request.request_id, "Failed to extract FXR: ", said.as_str())
        },
        Ok(fxr_bytes) => Response {
            request_id: request.request_id,
            success: true,
            message: String::from_str("Successfully extracted FXR"),
            data: Some(ResponseData::Fxr(encode(fxr_bytes.as_slice()))),
        },
    }
}

fn handle_get_many(
    request: Request,
    game_data: &GameData,
    view: &MemoryView<'_>,
    cssfx: Option<u64>,
) -> (r: Response)
    ensures
        r@ == get_many_answer(request, *game_data, *view, cssfx),
{
    if !game_data.features.extract {
        return fail_with(request.request_id, "FXR extraction is not supported in ", game_data.name);
    }
    let ids = match request.params.get("ids") {
        Some(Json::Array(items)) => collect_ids(items),
        _ => {
            return fail(request.request_id, String::from_str("Missing or invalid ids parameter"));
        },
    };
    let ghost expected = batch(*view, *game_data, cssfx, ids@);
    match extract_multiple(view, game_data, cssfx, &ids) {
        Err(e) => {
            let said = e.message();
            fail_with(request.request_id, "Failed to extract FXRs: ", said.as_str())
        },
        Ok(fxrs) => Response {
            request_id: request.request_id,
            success: true,
            message: String::from_str("Successfully extracted FXRs"),
            data: Some(ResponseData::Fxrs(encode_all(&fxrs, Ghost(expected->Ok_0)))),
        },
    }
}

fn handle_list(request: Request, game_data: &GameData, view: &MemoryView<'_>, cssfx: Option<u64>) -> (r:
    Response)
    ensures
        r@ == list_answer(request, *game_data, *view, cssfx),
{
    if !game_data.features.extract {
        return fail_with(request.request_id, "FXR listing is not supported in ", game_data.name);
    }
    match list_ids(view, game_data, cssfx) {
        Err(e) => {
            let said = e.message();
            fail_with(request.request_id, "Failed to list FXRs: ", said.as_str())
        },
        Ok(fxr_ids) => Response {
            request_id: request.request_id,
            success: true,
            message: String::from_str("Successfully listed FXRs"),
            data: Some(ResponseData::Ids(fxr_ids)),
        },
    }
}

/// Handles one request for the game `game_data`, whose memory is seen through
/// `view` and whose effects singleton lies at `cssfx`. What can be answered by
/// reading is answered; what needs the game to act comes back as an order, to
/// be answered by [`patch_response`] or [`params_response`] once it is carried
/// out.
pub fn handle_request(
    request: Request,
    game_data: &GameData,
    view: &MemoryView<'_>,
    cssfx: Option<u64>,
) -> (r: Handled)
    ensures
        handled(request, *game_data, *view, cssfx, r),
{
    match request.request_type {
        RequestType::ReloadFXRs => handle_reload(request, game_data, view, cssfx),
        RequestType::SetResidentSFX => handle_resident(request, game_data),
        RequestType::SetSpEffectSFX => handle_sp_effect(request, game_data),
        RequestType::GetFXR => Handled::Done(handle_get(request, game_data, view, cssfx)),
        RequestType::GetFXRs => Handled::Done(handle_get_many(request, game_data, view, cssfx)),
        RequestType::ListFXRs => Handled::Done(handle_list(request, game_data, view, cssfx)),
        RequestType::Unknown => Handled::Done(
            fail_with(
                request.request_id,
                "Invalid request type. Valid types are: ",
                "reload_fxrs, set_resident_sfx, set_sp_effect_sfx, get_fxr, get_fxrs, list_fxrs",
            ),
        ),
    }
}

/// The answer to a request to replace records, once the plan is carried out.
pub open spec fn patch_answer(
    request_id: Seq<char>,
    outcome: Result<(), FxrManagerError>,
) -> ResponseView {
    match outcome {
        Ok(_) => success(request_id, "Successfully reloaded FXR"@, None),
        Err(e) => failure(request_id, "Failed to patch FXR: "@ + manager_message(e)),
    }
}

/// The answer to a request to replace records, once the plan is carried out.
pub fn patch_response(request_id: String, outcome: &Result<(), FxrManagerError>) -> (r: Response)
    ensures
        r@ == patch_answer(request_id@, *outcome),
{
    match outcome {
        Ok(_) => Response {
            request_id,
            success: true,
            message: String::from_str("Successfully reloaded FXR"),
            data: None,
        },
        Err(e) => {
            let said = e.message();
            fail_with(request_id, "Failed to patch FXR: ", said.as_str())
        },
    }
}

/// The answer to a change of parameters, once it was sent on or could not be.
pub open spec fn params_answer(
    request_id: Seq<char>,
    request: ParamsRequestType,
    sent: Result<(), String>,
) -> ResponseView {
    match sent {
        Err(complaint) => failure(request_id, "Failed to send params request: "@ + complaint@),
        Ok(_) => match request {
            ParamsRequestType::SetResidentSFX { weapon_id, .. } => success(
                request_id,
                "Successfully set resident SFX for weapon "@ + decimal(weapon_id as nat),
                None,
            ),
            ParamsRequestType::SetSpEffectSFX { sp_effect_id, .. } => success(
                request_id,
                "Successfully updated SFX for SpEffect "@ + decimal(sp_effect_id as nat),
                None,
            ),
        },
    }
}

/// The answer to a change of parameters, once it was sent on or could not be.
pub fn params_response(request_id: String, request: ParamsRequestType, sent: &Result<(), String>) -> (r:
    Response)
    ensures
        r@ == params_answer(request_id@, request, *sent),
{
    match sent {
        Err(complaint) => fail_with(
            request_id,
            "Failed to send params request: ",
            complaint.as_str(),
        ),
        Ok(_) => {
            let message = match request {
                ParamsRequestType::SetResidentSFX { weapon_id, .. } => {
                    let number = decimal_string(weapon_id);
                    String::from_str("Successfully set resident SFX for weapon ").concat(
                        number.as_str(),
                    )
                },
                ParamsRequestType::SetSpEffectSFX { sp_effect_id, .. } => {
                    let number = decimal_string(sp_effect_id);
                    String::from_str("Successfully updated SFX for SpEffect ").concat(
                        number.as_str(),
                    )
                },
            };
            Response { request_id, success: true, message, data: None }
        },
    }
}

/// The answer to what could not be read as a request.
pub fn invalid_request_response(complaint: &str) -> (r: Response)
    ensures
        r@ == failure(":ERROR:"@, "Invalid request format: "@ + complaint@),
{
    fail_with(String::from_str(":ERROR:"), "Invalid request format: ", complaint)
}

/// The effect that a special effect is to show, given the effect wished for
/// and the one it shows now: the one wished for, else the one it shows now; -1
/// where the special effect is not there.
pub fn target_vfx(current_vfx_id: Option<i32>, target_vfx_id: Option<i32>) -> (r: i32)
    ensures
        r == match current_vfx_id {
            None => -1i32,
            Some(current) => match target_vfx_id {
                Some(target) => target,
                None => current,
            },
        },
{
    match current_vfx_id {
        None => -1,
        Some(current) => match target_vfx_id {
            Some(target) => target,
            None => current,
        },
    }
}

} // verus!
