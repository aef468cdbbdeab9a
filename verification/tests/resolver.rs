use fxr_patcher::game::pattern::PatternCapture;
use fxr_patcher::game::resolver::{displacement_of, resolve};

#[test]
fn resolve_adds_positive_displacement() {
    assert_eq!(resolve(0x1_4000_1000, 0x20), 0x1_4000_1020);
    assert_eq!(resolve(0x1_4000_1000, 0), 0x1_4000_1000);
    assert_eq!(resolve(0, 0x7fff_ffff), 0x7fff_ffff);
    assert_eq!(resolve(0x1_0000_0000, 0x7fff_ffff), 0x1_7fff_ffff);
}

#[test]
fn resolve_subtracts_negative_displacement() {
    assert_eq!(resolve(0x1_4000_1000, -0x20), 0x1_4000_0fe0);
    assert_eq!(resolve(0x1_0000_0000, -0x7fff_ffff), 0x8000_0001);
    assert_eq!(resolve(0x1_0000_0000, i32::MIN), 0x8000_0000);
}

#[test]
fn resolve_wraps_at_both_ends() {
    assert_eq!(resolve(u64::MAX, 1), 0);
    assert_eq!(resolve(u64::MAX, 0x7fff_ffff), 0x7fff_fffe);
    assert_eq!(resolve(0, -1), u64::MAX);
    assert_eq!(resolve(5, -0x7fff_ffff), u64::MAX - 0x7fff_ffff + 6);
    assert_eq!(resolve(0, i32::MIN), 0xffff_ffff_8000_0000);
}

#[test]
fn displacement_is_signed_little_endian() {
    assert_eq!(displacement_of(&[0xcd, 0xbb, 0xfb, 0xff]), Some(-0x44433));
    assert_eq!(displacement_of(&[0x59, 0x01, 0x00, 0x00]), Some(0x159));
    assert_eq!(displacement_of(&[0xff, 0xff, 0xff, 0x7f]), Some(i32::MAX));
    assert_eq!(displacement_of(&[0x00, 0x00, 0x00, 0x80]), Some(i32::MIN));
    assert_eq!(displacement_of(&[0xff, 0xff, 0xff, 0xff]), Some(-1));
}

#[test]
fn displacement_needs_four_bytes() {
    assert_eq!(displacement_of(&[]), None);
    assert_eq!(displacement_of(&[1, 2, 3]), None);
    assert_eq!(displacement_of(&[1, 2, 3, 4, 5]), None);
}

#[test]
fn capture_target_counts_from_behind_the_displacement() {
    let call = PatternCapture { location: 0x1_420f_bdbf, bytes: vec![0xcd, 0xbb, 0xfb, 0xff] };
    assert_eq!(call.target(), Some(0x1_420b_7990));
    let short = PatternCapture { location: 0x1000, bytes: vec![1, 2] };
    assert_eq!(short.target(), None);
    let last = PatternCapture { location: u64::MAX - 3, bytes: vec![8, 0, 0, 0] };
    assert_eq!(last.target(), Some(8));
}
