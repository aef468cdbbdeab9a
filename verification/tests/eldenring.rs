use fxr_patcher::game::eldenring::{
    EldenRingFxrManager, GET_ALLOCATOR_PATTERN, PATCH_OFFSETS_PATTERN, PATCH_OFFSETS_PATTERN_NR,
    WTF_FXR_PATTERN, WTF_FXR_PATTERN_NR,
};
use fxr_patcher::game::pattern::{scan, PatternCache};
use fxr_patcher::game::signature::Signature;
use fxr_patcher::memory::Region;
use fxr_patcher::protocol::FxrManagerError;

/// Bytes that the signature matches, with 0 for every bit left open.
fn bytes_of(pattern: &str) -> Vec<u8> {
    let bits: Vec<char> = pattern.chars().filter(|c| "01.".contains(*c)).collect();
    bits.chunks(8)
        .map(|group| group.iter().fold(0u8, |byte, bit| byte * 2 + (*bit == '1') as u8))
        .collect()
}

const SECTION: u64 = 0x1_4000_1000;

/// A code section with the three routines: the call to the allocator getter at
/// 0x100, the two fix-ups at 0x400 and 0x800.
fn code() -> Vec<u8> {
    let mut code = vec![0x90u8; 0x1000];
    let call = bytes_of(GET_ALLOCATOR_PATTERN);
    code[0x100..0x100 + call.len()].copy_from_slice(&call);
    let displacement = 0x100 + call.len() - 4;
    code[displacement..displacement + 4].copy_from_slice(&(-0x44433i32).to_le_bytes());
    let patch = bytes_of(PATCH_OFFSETS_PATTERN);
    code[0x400..0x400 + patch.len()].copy_from_slice(&patch);
    let prepare = bytes_of(WTF_FXR_PATTERN);
    code[0x800..0x800 + prepare.len()].copy_from_slice(&prepare);
    code
}

#[test]
fn signatures_are_signatures() {
    for pattern in [
        GET_ALLOCATOR_PATTERN,
        PATCH_OFFSETS_PATTERN,
        WTF_FXR_PATTERN,
        PATCH_OFFSETS_PATTERN_NR,
        WTF_FXR_PATTERN_NR,
    ] {
        let signature = Signature::parse(pattern).unwrap();
        let bytes = bytes_of(pattern);
        assert_eq!(scan(&bytes, &signature).map(|m| m.location), Some(0));
    }
    assert_eq!(bytes_of(GET_ALLOCATOR_PATTERN).len(), 28);
    assert_eq!(bytes_of(PATCH_OFFSETS_PATTERN).len(), 54);
}

#[test]
fn allocator_signature_captures_the_displacement() {
    let signature = Signature::parse(GET_ALLOCATOR_PATTERN).unwrap();
    let mut bytes = bytes_of(GET_ALLOCATOR_PATTERN);
    bytes[24..28].copy_from_slice(&[1, 2, 3, 4]);
    let found = scan(&bytes, &signature).unwrap();
    assert_eq!(found.captures.len(), 1);
    assert_eq!(found.captures[0].location, 24);
    assert_eq!(found.captures[0].bytes, vec![1, 2, 3, 4]);
}

#[test]
fn manager_finds_its_three_routines() {
    let code = code();
    let sections = vec![Region::new(SECTION, &code).unwrap()];
    let mut cache = PatternCache::new();
    let manager = EldenRingFxrManager::new(&mut cache, &sections).unwrap();
    assert_eq!(manager.patch_fxr_offset, SECTION + 0x400);
    assert_eq!(manager.prepare_fxr, SECTION + 0x800);
    assert_eq!(manager.fxr_allocator_getter, SECTION + 0x100 + 28 - 0x44433);
    assert_eq!(cache.entries.len(), 3);
}

#[test]
fn manager_is_made_again_from_the_cache() {
    let code = code();
    let sections = vec![Region::new(SECTION, &code).unwrap()];
    let mut cache = PatternCache::new();
    let first = EldenRingFxrManager::new(&mut cache, &sections);
    let second = EldenRingFxrManager::new(&mut cache, &vec![]);
    assert_eq!(first, second);
    assert!(first.is_ok());
    assert_eq!(cache.entries.len(), 3);
}

#[test]
fn manager_names_the_signature_that_fails() {
    let whole = code();
    let mut cache = PatternCache::new();
    assert_eq!(
        EldenRingFxrManager::new(&mut cache, &vec![]),
        Err(FxrManagerError::InstructionPattern("get_allocator_call".to_string()))
    );
    assert_eq!(cache.entries.len(), 1);

    let sections = vec![Region::new(SECTION, &whole[..0x400]).unwrap()];
    assert_eq!(
        EldenRingFxrManager::new(&mut PatternCache::new(), &sections),
        Err(FxrManagerError::InstructionPattern("patch_fxr".to_string()))
    );
    let sections = vec![Region::new(SECTION, &whole[..0x800]).unwrap()];
    assert_eq!(
        EldenRingFxrManager::new(&mut PatternCache::new(), &sections),
        Err(FxrManagerError::InstructionPattern("wtf_fxr".to_string()))
    );
}
