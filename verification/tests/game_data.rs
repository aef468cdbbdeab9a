use fxr_patcher::game::detection::{detect_running_game, select_product_name};
use fxr_patcher::game::game_data::{
    armored_core_6, dark_souls_3, elden_ring, get_game_data_by_name, get_game_data_by_title,
    get_supported_exe_names, nightreign, sekiro, supported_game_list, SupportedFeatures,
};
use fxr_patcher::game::manager::{fxr_id, fxr_manager_for, FxrManager};
use fxr_patcher::protocol::{FxrManagerError, GameDetectionError};
use fxr_patcher::text::{decimal_string, same_text};

fn pairs(items: &[(&str, &str)]) -> Vec<(String, String)> {
    items.iter().map(|(k, v)| (k.to_string(), v.to_string())).collect()
}

#[test]
fn five_games_are_supported() {
    let names: Vec<&str> = supported_game_list().iter().map(|g| g.name).collect();
    assert_eq!(names, vec!["DarkSouls3", "Sekiro", "EldenRing", "ArmoredCore6", "Nightreign"]);
    assert_eq!(supported_game_list()[2], elden_ring());
}

#[test]
fn layouts_differ_by_game() {
    assert_eq!(dark_souls_3().layout.cssfx_unk_size, 0x50);
    assert_eq!(dark_souls_3().layout.res_con_pad_size, 0x10);
    assert_eq!(sekiro().layout.cssfx_unk_size, 0x58);
    assert_eq!(elden_ring().layout.gfx_manager_unk_size, 0x158);
    assert_eq!(armored_core_6().layout.cssfx_unk_size, 0x88);
    assert_eq!(nightreign().layout.gfx_manager_unk_size, 0x58);
    assert_eq!(dark_souls_3().singleton_name, "SprjSfx");
    assert_eq!(nightreign().singleton_name, "CSSfx");
}

#[test]
fn only_elden_ring_edits_params() {
    for game in supported_game_list() {
        assert_eq!(
            game.features,
            SupportedFeatures { reload: true, params: game.name == "EldenRing", extract: true }
        );
    }
}

#[test]
fn game_is_found_by_title() {
    assert_eq!(get_game_data_by_title("ELDEN RING™"), Some(elden_ring()));
    assert_eq!(get_game_data_by_title("DARK SOULS™ III"), Some(dark_souls_3()));
    assert_eq!(get_game_data_by_title("Sekiro™: Shadows Die Twice"), Some(sekiro()));
    assert_eq!(
        get_game_data_by_title("ARMORED CORE™ VI FIRES OF RUBICON™"),
        Some(armored_core_6())
    );
    assert_eq!(get_game_data_by_title("ELDEN RING NIGHTREIGN"), Some(nightreign()));
}

#[test]
fn unknown_title_finds_nothing() {
    assert_eq!(get_game_data_by_title("ELDEN RING"), None);
    assert_eq!(get_game_data_by_title("elden ring™"), None);
    assert_eq!(get_game_data_by_title(""), None);
    assert_eq!(get_game_data_by_title("EldenRing"), None);
}

#[test]
fn game_is_found_by_name() {
    assert_eq!(get_game_data_by_name("EldenRing"), Some(elden_ring()));
    assert_eq!(get_game_data_by_name("Nightreign"), Some(nightreign()));
    assert_eq!(get_game_data_by_name("ELDEN RING™"), None);
    assert_eq!(get_game_data_by_name("eldenring"), None);
}

#[test]
fn exe_names_are_listed_once_in_order_of_first_mention() {
    assert_eq!(
        get_supported_exe_names(),
        vec![
            "DarkSoulsIII.exe",
            "sekiro.exe",
            "eldenring.exe",
            "start_protected_game.exe",
            "armoredcore6.exe",
            "nightreign.exe",
        ]
    );
}

#[test]
fn manager_is_made_for_supported_games_only() {
    assert_eq!(fxr_manager_for(&elden_ring()), Ok(FxrManager { game: elden_ring() }));
    let mut renamed = sekiro();
    renamed.name = "Sekiro2";
    assert_eq!(fxr_manager_for(&renamed), Err(FxrManagerError::UnsupportedGame));
    let mut retitled = sekiro();
    retitled.product_name = "Other";
    assert_eq!(fxr_manager_for(&retitled), Ok(FxrManager { game: retitled }));
}

#[test]
fn same_text_compares_characters() {
    assert!(same_text("™", "™"));
    assert!(same_text("", ""));
    assert!(!same_text("a", "A"));
    assert!(!same_text("ab", "a"));
}

#[test]
fn record_id_stands_at_twelve() {
    let mut bytes = vec![0u8; 0x10];
    bytes[0xc..0x10].copy_from_slice(&[0x78, 0x56, 0x34, 0x12]);
    assert_eq!(fxr_id(&bytes), Some(0x1234_5678));
    bytes.push(0xff);
    assert_eq!(fxr_id(&bytes), Some(0x1234_5678));
    assert_eq!(fxr_id(&bytes[..15]), None);
    assert_eq!(fxr_id(&[]), None);
}

#[test]
fn product_name_is_picked_by_its_key() {
    let strings = pairs(&[
        ("CompanyName", "FromSoftware"),
        ("ProductName", "ELDEN RING™"),
        ("ProductVersion", "1.0"),
    ]);
    assert_eq!(select_product_name(&strings), Ok("ELDEN RING™".to_string()));
}

#[test]
fn last_product_name_counts() {
    let strings = pairs(&[("ProductName", "first"), ("x", "y"), ("ProductName", "second")]);
    assert_eq!(select_product_name(&strings), Ok("second".to_string()));
}

#[test]
fn missing_product_name_is_reported() {
    assert_eq!(select_product_name(&vec![]), Err(GameDetectionError::MissingProductName));
    assert_eq!(
        select_product_name(&pairs(&[("productname", "ELDEN RING™"), ("ProductName ", "x")])),
        Err(GameDetectionError::MissingProductName)
    );
}

#[test]
fn game_is_detected_from_version_strings() {
    let strings = pairs(&[("ProductName", "Sekiro™: Shadows Die Twice")]);
    assert_eq!(detect_running_game(Ok(strings)), Ok(sekiro()));
}

#[test]
fn detection_reports_unknown_product() {
    assert_eq!(
        detect_running_game(Ok(pairs(&[("ProductName", "Bloodborne")]))),
        Err(GameDetectionError::UnknownProductName("Bloodborne".to_string()))
    );
    assert_eq!(
        detect_running_game(Ok(pairs(&[("FileVersion", "1")]))),
        Err(GameDetectionError::MissingProductName)
    );
}

#[test]
fn detection_hands_on_why_there_are_no_strings() {
    for reason in [
        GameDetectionError::NoMainModuleHandle,
        GameDetectionError::MissingPEResources,
        GameDetectionError::MissingPEVersionInfo,
        GameDetectionError::MissingPEStringsLanguage,
    ] {
        assert_eq!(detect_running_game(Err(reason.clone())), Err(reason));
    }
}

#[test]
fn detection_errors_have_their_texts() {
    assert_eq!(
        GameDetectionError::NoMainModuleHandle.message(),
        "Failed acquiring the games module handle."
    );
    assert_eq!(GameDetectionError::MissingPEResources.message(), "Failed acquiring PE resources.");
    assert_eq!(
        GameDetectionError::MissingPEVersionInfo.message(),
        "Failed acquiring PE version info."
    );
    assert_eq!(
        GameDetectionError::MissingPEStringsLanguage.message(),
        "Failed acquiring PE language for strings."
    );
    assert_eq!(
        GameDetectionError::MissingProductName.message(),
        "Failed acquiring product name from PE header. Cannot determine what game we're running."
    );
    assert_eq!(
        GameDetectionError::UnknownProductName("Doom".to_string()).message(),
        "Did not recognize game for product name Doom."
    );
    assert_eq!(
        GameDetectionError::MissingTextSection.message(),
        "Failed to find the .text section."
    );
}

#[test]
fn manager_errors_have_their_texts() {
    assert_eq!(
        FxrManagerError::CSSfxInstanceMissing.message(),
        "Could not locate CSSfx instance."
    );
    assert_eq!(
        FxrManagerError::InvalidFxr.message(),
        "Failed parsing the supplier FXR. Can't read FXR ID."
    );
    assert_eq!(
        FxrManagerError::GameDetectionError(GameDetectionError::MissingPEResources).message(),
        "Could not acquire game parameters: Failed acquiring PE resources."
    );
    assert_eq!(FxrManagerError::FxrNotFound(402030).message(), "Could not find FXR with ID 402030.");
    assert_eq!(FxrManagerError::FxrNotFound(0).message(), "Could not find FXR with ID 0.");
    assert_eq!(
        FxrManagerError::UnsupportedOperation("nope".to_string()).message(),
        "nope"
    );
    assert_eq!(FxrManagerError::UnsupportedGame.message(), "Unsupported game.");
    assert_eq!(
        FxrManagerError::InstructionPattern("wtf_fxr".to_string()).message(),
        "Could not match instruction pattern wtf_fxr."
    );
}

#[test]
fn decimal_string_writes_digits() {
    assert_eq!(decimal_string(0), "0");
    assert_eq!(decimal_string(7), "7");
    assert_eq!(decimal_string(10), "10");
    assert_eq!(decimal_string(1_234_567_890), "1234567890");
    assert_eq!(decimal_string(u32::MAX), "4294967295");
}
