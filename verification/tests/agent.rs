use base64::engine::general_purpose::STANDARD;
use base64::Engine;
use fxr_patcher::agent::{
    answered_in_turn, collect_ids, decode_records, handle_request, invalid_request_response,
    params_response, patch_response, request_type_named, target_vfx, truncate_i16, truncate_i32,
    truncate_signed, truncate_u32, Handled, Json, JsonNumber, ParamsRequestType, Request,
    RequestType, Response, ResponseData,
};
use fxr_patcher::game::game_data::{dark_souls_3, elden_ring};
use fxr_patcher::game::manager::PatchOrder;
use fxr_patcher::memory::{MemoryView, Region};
use fxr_patcher::protocol::FxrManagerError;

const BASE: u64 = 0x20000;
const CSSFX: u64 = BASE;
const WRAPPER: u64 = BASE + 0x600;
const RECORD: u64 = BASE + 0x700;

fn put(image: &mut Vec<u8>, addr: u64, bytes: &[u8]) {
    let at = (addr - BASE) as usize;
    image[at..at + bytes.len()].copy_from_slice(bytes);
}

fn node(image: &mut Vec<u8>, addr: u64, next: u64, id: u32, wrapper: u64) {
    put(image, addr, &next.to_le_bytes());
    put(image, addr + 16, &id.to_le_bytes());
    put(image, addr + 24, &wrapper.to_le_bytes());
}

/// The twelve bytes `hello world~` behind a header that makes them the tail
/// of a record with identifier 300.
fn record() -> Vec<u8> {
    let mut bytes = vec![0u8; 0x88];
    bytes[6] = 5;
    bytes[0xc..0x10].copy_from_slice(&300u32.to_le_bytes());
    bytes[0x80..0x84].copy_from_slice(&0x88u32.to_le_bytes());
    bytes[0x84..0x88].copy_from_slice(&3u32.to_le_bytes());
    bytes.extend_from_slice(b"hello world~");
    bytes
}

/// An image of Elden Ring with one record, 300, in its registry.
fn image() -> Vec<u8> {
    let mut image = vec![0u8; 0x1000];
    put(&mut image, CSSFX + 0x60, &(BASE + 0x100).to_le_bytes());
    put(&mut image, BASE + 0x128, &(BASE + 0x200).to_le_bytes());
    put(&mut image, BASE + 0x200 + 0x160, &(BASE + 0x400).to_le_bytes());
    put(&mut image, BASE + 0x420, &(BASE + 0x500).to_le_bytes());
    node(&mut image, BASE + 0x500, BASE + 0x520, 0, 0);
    node(&mut image, BASE + 0x520, BASE + 0x500, 300, WRAPPER);
    put(&mut image, WRAPPER, &RECORD.to_le_bytes());
    put(&mut image, RECORD, &record());
    image
}

fn view(image: &[u8]) -> MemoryView<'_> {
    MemoryView::new(vec![Region::new(BASE, image).unwrap()])
}

fn number(n: u64) -> Json {
    Json::Number(JsonNumber::Unsigned(n))
}

fn text(s: &str) -> Json {
    Json::Text(s.to_string())
}

fn object(members: Vec<(&str, Json)>) -> Json {
    Json::Object(members.into_iter().map(|(k, v)| (k.to_string(), v)).collect())
}

fn request(request_type: RequestType, members: Vec<(&str, Json)>) -> Request {
    Request { request_id: "r-1".to_string(), request_type, params: object(members) }
}

fn failure(message: &str) -> Handled {
    Handled::Done(Response {
        request_id: "r-1".to_string(),
        success: false,
        message: message.to_string(),
        data: None,
    })
}

fn handle(request: Request) -> Handled {
    let image = image();
    handle_request(request, &elden_ring(), &view(&image), Some(CSSFX))
}

#[test]
fn request_types_go_by_their_names() {
    assert_eq!(request_type_named("reload_fxrs"), RequestType::ReloadFXRs);
    assert_eq!(request_type_named("set_resident_sfx"), RequestType::SetResidentSFX);
    assert_eq!(request_type_named("set_sp_effect_sfx"), RequestType::SetSpEffectSFX);
    assert_eq!(request_type_named("get_fxr"), RequestType::GetFXR);
    assert_eq!(request_type_named("get_fxrs"), RequestType::GetFXRs);
    assert_eq!(request_type_named("list_fxrs"), RequestType::ListFXRs);
    assert_eq!(request_type_named("ReloadFXRs"), RequestType::Unknown);
    assert_eq!(request_type_named(""), RequestType::Unknown);
    assert_eq!(RequestType::default(), RequestType::Unknown);
}

#[test]
fn requests_that_change_the_game_are_answered_in_turn() {
    assert!(answered_in_turn(RequestType::ReloadFXRs));
    assert!(answered_in_turn(RequestType::SetResidentSFX));
    assert!(answered_in_turn(RequestType::SetSpEffectSFX));
    assert!(!answered_in_turn(RequestType::GetFXR));
    assert!(!answered_in_turn(RequestType::GetFXRs));
    assert!(!answered_in_turn(RequestType::ListFXRs));
    assert!(!answered_in_turn(RequestType::Unknown));
}

#[test]
fn json_members_and_numbers() {
    let value = object(vec![("a", number(1)), ("b", text("x")), ("a", number(2))]);
    assert_eq!(value.get("a"), Some(&number(1)));
    assert_eq!(value.get("b"), Some(&text("x")));
    assert_eq!(value.get("c"), None);
    assert_eq!(text("x").get("a"), None);
    assert_eq!(number(7).as_u64(), Some(7));
    assert_eq!(number(u64::MAX).as_i64(), None);
    assert_eq!(number(i64::MAX as u64).as_i64(), Some(i64::MAX));
    assert_eq!(Json::Number(JsonNumber::Negative(-3)).as_i64(), Some(-3));
    assert_eq!(Json::Number(JsonNumber::Negative(-3)).as_u64(), None);
    assert_eq!(Json::Number(JsonNumber::Float).as_u64(), None);
    assert_eq!(Json::Number(JsonNumber::Float).as_i64(), None);
    assert_eq!(Json::Null.as_u64(), None);
    assert_eq!(Json::Bool(true).as_i64(), None);
}

#[test]
fn numbers_keep_their_low_bits() {
    assert_eq!(truncate_u32(0x1_0000_0005), 5);
    assert_eq!(truncate_u32(0xffff_ffff), u32::MAX);
    assert_eq!(truncate_u32(u64::MAX), u64::MAX as u32);
    assert_eq!(truncate_i32(0x7fff_ffff), i32::MAX);
    assert_eq!(truncate_i32(0x8000_0000), i32::MIN);
    assert_eq!(truncate_i32(0xffff_ffff), -1);
    assert_eq!(truncate_i32(0x5_0000_0007), 7);
    assert_eq!(truncate_i16(0x7fff), i16::MAX);
    assert_eq!(truncate_i16(0x8000), i16::MIN);
    assert_eq!(truncate_i16(0x1_ffff), -1);
    assert_eq!(truncate_i16(300), 300);
    for n in [0i64, 1, -1, 402030, -402030, i64::MAX, i64::MIN, 0x8000_0000, -0x8000_0001] {
        assert_eq!(truncate_signed(n), n as i32, "{}", n);
    }
}

#[test]
fn records_are_decoded_from_base_64() {
    let items = vec![text("aGVsbG8="), number(4), text(""), text("AAEC/w==")];
    assert_eq!(decode_records(&items), Ok(vec![b"hello".to_vec(), vec![], vec![0, 1, 2, 255]]));
    assert_eq!(decode_records(&vec![text("aGVsbG8gd29ybGR+")]), Ok(vec![b"hello world~".to_vec()]));
    assert_eq!(decode_records(&vec![]), Ok(vec![]));
}

#[test]
fn first_text_that_is_no_base_64_ends_decoding() {
    let items = vec![text("aGVsbG8="), text("a*b="), text("%%%%")];
    assert_eq!(decode_records(&items), Err("Invalid symbol 42, offset 1.".to_string()));
}

#[test]
fn ids_are_collected_from_numbers() {
    let items = vec![
        number(5),
        text("6"),
        number(0x1_0000_0007),
        Json::Number(JsonNumber::Negative(-1)),
        Json::Number(JsonNumber::Float),
        Json::Null,
        number(999),
    ];
    assert_eq!(collect_ids(&items), vec![5, 7, 999]);
}

#[test]
fn unknown_request_lists_the_valid_types() {
    assert_eq!(
        handle(request(RequestType::Unknown, vec![])),
        failure(
            "Invalid request type. Valid types are: reload_fxrs, set_resident_sfx, \
             set_sp_effect_sfx, get_fxr, get_fxrs, list_fxrs"
        )
    );
}

#[test]
fn get_fxr_answers_with_the_record_in_base_64() {
    let answer = handle(request(RequestType::GetFXR, vec![("id", number(300))]));
    assert_eq!(
        answer,
        Handled::Done(Response {
            request_id: "r-1".to_string(),
            success: true,
            message: "Successfully extracted FXR".to_string(),
            data: Some(ResponseData::Fxr(STANDARD.encode(record()))),
        })
    );
    match answer {
        Handled::Done(Response { data: Some(ResponseData::Fxr(text)), .. }) => {
            assert_eq!(text.len(), (record().len() + 2) / 3 * 4);
            assert!(text.starts_with("AAAAAAAABQAAAAAALAEAAA"));
            assert_eq!(decode_records(&vec![Json::Text(text)]), Ok(vec![record()]));
        }
        other => panic!("{:?}", other),
    }
}

#[test]
fn get_fxr_reports_what_extraction_reports() {
    assert_eq!(
        handle(request(RequestType::GetFXR, vec![("id", number(301))])),
        failure("Failed to extract FXR: Could not find FXR with ID 301.")
    );
    assert_eq!(
        handle(request(RequestType::GetFXR, vec![("id", number(0x1_0000_0000 + 301))])),
        failure("Failed to extract FXR: Could not find FXR with ID 301.")
    );
    let image = image();
    assert_eq!(
        handle_request(
            request(RequestType::GetFXR, vec![("id", number(300))]),
            &elden_ring(),
            &view(&image),
            None
        ),
        failure("Failed to extract FXR: Could not locate CSSfx instance.")
    );
    let mut broken = image.clone();
    put(&mut broken, RECORD + 6, &[9]);
    assert_eq!(
        handle_request(
            request(RequestType::GetFXR, vec![("id", number(300))]),
            &elden_ring(),
            &view(&broken),
            Some(CSSFX)
        ),
        failure("Failed to extract FXR: Failed parsing the supplier FXR. Can't read FXR ID.")
    );
}

#[test]
fn get_fxr_needs_its_id() {
    for params in [
        vec![],
        vec![("id", text("300"))],
        vec![("id", Json::Number(JsonNumber::Negative(-300)))],
        vec![("id", Json::Number(JsonNumber::Float))],
        vec![("ID", number(300))],
    ] {
        assert_eq!(
            handle(request(RequestType::GetFXR, params)),
            failure("Missing or invalid id parameter")
        );
    }
}

#[test]
fn get_fxrs_answers_in_the_order_asked() {
    let items = vec![number(300), number(999), text("x"), number(300)];
    let answer = handle(request(RequestType::GetFXRs, vec![("ids", Json::Array(items))]));
    match answer {
        Handled::Done(Response { success: true, message, data: Some(ResponseData::Fxrs(texts)), .. }) => {
            assert_eq!(message, "Successfully extracted FXRs");
            assert_eq!(texts.len(), 3);
            assert!(texts[0].is_some());
            assert_eq!(texts[1], None);
            assert_eq!(texts[2], texts[0]);
            let decoded = decode_records(&vec![Json::Text(texts[0].clone().unwrap())]);
            assert_eq!(decoded, Ok(vec![record()]));
        }
        other => panic!("{:?}", other),
    }
}

#[test]
fn get_fxrs_needs_an_array_of_ids() {
    for params in [vec![], vec![("ids", number(300))], vec![("ids", object(vec![]))]] {
        assert_eq!(
            handle(request(RequestType::GetFXRs, params)),
            failure("Missing or invalid ids parameter")
        );
    }
    let image = image();
    assert_eq!(
        handle_request(
            request(RequestType::GetFXRs, vec![("ids", Json::Array(vec![]))]),
            &elden_ring(),
            &view(&image),
            None
        ),
        failure("Failed to extract FXRs: Could not locate CSSfx instance.")
    );
}

#[test]
fn list_fxrs_answers_with_the_ids() {
    assert_eq!(
        handle(request(RequestType::ListFXRs, vec![("ignored", Json::Null)])),
        Handled::Done(Response {
            request_id: "r-1".to_string(),
            success: true,
            message: "Successfully listed FXRs".to_string(),
            data: Some(ResponseData::Ids(vec![300])),
        })
    );
    let image = image();
    assert_eq!(
        handle_request(request(RequestType::ListFXRs, vec![]), &elden_ring(), &view(&image), None),
        failure("Failed to list FXRs: Could not locate CSSfx instance.")
    );
}

#[test]
fn reload_plans_the_patch_of_the_decoded_records() {
    let items = vec![text("AAAAAAAAAAAAAAAALAEAAA=="), number(1), text("AAAAAAAAAAAAAAAALQEAAA==")];
    let answer = handle(request(RequestType::ReloadFXRs, vec![("fxrs", Json::Array(items))]));
    match answer {
        Handled::Patch { request_id, records, plan } => {
            assert_eq!(request_id, "r-1");
            assert_eq!(records.len(), 2);
            assert_eq!(records[0].len(), 16);
            assert_eq!(&records[0][12..], &[0x2c, 1, 0, 0]);
            assert_eq!(plan.outcome, Ok(()));
            assert_eq!(
                plan.orders,
                vec![Some(PatchOrder { id: 300, size: 16, alignment: 0x10, wrapper: WRAPPER }), None]
            );
        }
        other => panic!("{:?}", other),
    }
}

#[test]
fn reload_hands_on_a_plan_that_fails() {
    let items = vec![text("aGVsbG8=")];
    match handle(request(RequestType::ReloadFXRs, vec![("fxrs", Json::Array(items))])) {
        Handled::Patch { records, plan, .. } => {
            assert_eq!(records, vec![b"hello".to_vec()]);
            assert_eq!(plan.outcome, Err(FxrManagerError::InvalidFxr));
            assert!(plan.orders.is_empty());
        }
        other => panic!("{:?}", other),
    }
}

#[test]
fn reload_needs_an_array_of_records() {
    assert_eq!(handle(request(RequestType::ReloadFXRs, vec![])), failure("Missing fxrs parameter"));
    assert_eq!(
        handle(request(RequestType::ReloadFXRs, vec![("fxrs", text("aGVsbG8="))])),
        failure("Invalid fxrs parameter: expected array")
    );
    assert_eq!(
        handle(request(RequestType::ReloadFXRs, vec![("fxrs", Json::Array(vec![text("a")]))])),
        failure("Failed to decode base64 FXR: Invalid input length: 1")
    );
}

#[test]
fn set_resident_sfx_becomes_a_change_of_parameters() {
    let params = vec![("weapon", number(1040000)), ("sfx", number(302590)), ("dmy", number(120))];
    assert_eq!(
        handle(request(RequestType::SetResidentSFX, params)),
        Handled::Params {
            request_id: "r-1".to_string(),
            request: ParamsRequestType::SetResidentSFX {
                weapon_id: 1040000,
                sfx_id: 302590,
                dmy_id: 120
            },
        }
    );
}

#[test]
fn set_resident_sfx_names_its_first_missing_number() {
    let all = [("weapon", number(1)), ("sfx", number(2)), ("dmy", number(3))];
    for (skip, name) in ["weapon", "sfx", "dmy"].iter().enumerate() {
        let params: Vec<(&str, Json)> = all
            .iter()
            .enumerate()
            .filter(|(i, _)| *i != skip)
            .map(|(_, (k, v))| (*k, number(v.as_u64().unwrap())))
            .collect();
        assert_eq!(
            handle(request(RequestType::SetResidentSFX, params)),
            failure(&format!("Missing or invalid {} parameter", name))
        );
    }
}

#[test]
fn set_sp_effect_sfx_becomes_a_change_of_parameters() {
    let params = vec![
        ("spEffect", number(0x1_0000_0000 + 9000)),
        ("sfx", number(0xffff_ffff)),
        ("dmy", number(0x1_8001)),
        ("vfx", Json::Number(JsonNumber::Negative(-1))),
    ];
    assert_eq!(
        handle(request(RequestType::SetSpEffectSFX, params)),
        Handled::Params {
            request_id: "r-1".to_string(),
            request: ParamsRequestType::SetSpEffectSFX {
                sp_effect_id: 9000,
                sfx_id: -1,
                dmy_id: -32767,
                target_vfx_id: Some(-1),
            },
        }
    );
    let plain = vec![("spEffect", number(1)), ("sfx", number(2)), ("dmy", number(3)), ("vfx", text("4"))];
    assert_eq!(
        handle(request(RequestType::SetSpEffectSFX, plain)),
        Handled::Params {
            request_id: "r-1".to_string(),
            request: ParamsRequestType::SetSpEffectSFX {
                sp_effect_id: 1,
                sfx_id: 2,
                dmy_id: 3,
                target_vfx_id: None,
            },
        }
    );
    assert_eq!(
        handle(request(RequestType::SetSpEffectSFX, vec![("sfx", number(2))])),
        failure("Missing or invalid spEffect parameter")
    );
}

#[test]
fn requests_are_refused_where_the_game_lacks_the_feature() {
    let image = image();
    let view = view(&image);
    let game = dark_souls_3();
    assert_eq!(
        handle_request(request(RequestType::SetResidentSFX, vec![]), &game, &view, Some(CSSFX)),
        failure("Parameter modification is not supported in DarkSouls3")
    );
    assert_eq!(
        handle_request(request(RequestType::SetSpEffectSFX, vec![]), &game, &view, Some(CSSFX)),
        failure("Parameter modification is not supported in DarkSouls3")
    );
    let mut bare = elden_ring();
    bare.features.reload = false;
    bare.features.extract = false;
    assert_eq!(
        handle_request(request(RequestType::ReloadFXRs, vec![]), &bare, &view, Some(CSSFX)),
        failure("FXR reloading is not supported in EldenRing")
    );
    assert_eq!(
        handle_request(request(RequestType::GetFXR, vec![]), &bare, &view, Some(CSSFX)),
        failure("FXR extraction is not supported in EldenRing")
    );
    assert_eq!(
        handle_request(request(RequestType::GetFXRs, vec![]), &bare, &view, Some(CSSFX)),
        failure("FXR extraction is not supported in EldenRing")
    );
    assert_eq!(
        handle_request(request(RequestType::ListFXRs, vec![]), &bare, &view, Some(CSSFX)),
        failure("FXR listing is not supported in EldenRing")
    );
}

#[test]
fn patch_is_answered_by_its_outcome() {
    assert_eq!(
        patch_response("r-2".to_string(), &Ok(())),
        Response {
            request_id: "r-2".to_string(),
            success: true,
            message: "Successfully reloaded FXR".to_string(),
            data: None,
        }
    );
    assert_eq!(
        patch_response("r-2".to_string(), &Err(FxrManagerError::InvalidFxr)),
        Response {
            request_id: "r-2".to_string(),
            success: false,
            message: "Failed to patch FXR: Failed parsing the supplier FXR. Can't read FXR ID."
                .to_string(),
            data: None,
        }
    );
}

#[test]
fn change_of_parameters_is_answered_once_sent() {
    let resident = ParamsRequestType::SetResidentSFX { weapon_id: 1040000, sfx_id: 1, dmy_id: 2 };
    let sp_effect = ParamsRequestType::SetSpEffectSFX {
        sp_effect_id: 9000,
        sfx_id: 1,
        dmy_id: 2,
        target_vfx_id: None,
    };
    assert_eq!(
        params_response("a".to_string(), resident, &Ok(())).message,
        "Successfully set resident SFX for weapon 1040000"
    );
    assert_eq!(
        params_response("a".to_string(), sp_effect, &Ok(())).message,
        "Successfully updated SFX for SpEffect 9000"
    );
    assert!(params_response("a".to_string(), sp_effect, &Ok(())).success);
    assert_eq!(
        params_response("a".to_string(), resident, &Err("channel closed".to_string())),
        Response {
            request_id: "a".to_string(),
            success: false,
            message: "Failed to send params request: channel closed".to_string(),
            data: None,
        }
    );
}

#[test]
fn what_is_no_request_is_answered_as_an_error() {
    assert_eq!(
        invalid_request_response("missing field `request_id`"),
        Response {
            request_id: ":ERROR:".to_string(),
            success: false,
            message: "Invalid request format: missing field `request_id`".to_string(),
            data: None,
        }
    );
}

#[test]
fn target_effect_is_the_one_wished_for_else_the_current() {
    assert_eq!(target_vfx(Some(10), Some(20)), 20);
    assert_eq!(target_vfx(Some(10), None), 10);
    assert_eq!(target_vfx(None, Some(20)), -1);
    assert_eq!(target_vfx(None, None), -1);
    assert_eq!(target_vfx(Some(-1), None), -1);
}
