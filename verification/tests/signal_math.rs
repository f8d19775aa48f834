//! Tests for the fixed-point signal helpers: the soft clipper and the
//! semitone-to-rate table. Q16 fixed point throughout: 65536 is 1.0.

use qeyloop_dsp::math::{pitch_factor, soft_clip};

#[test]
fn test_soft_clip() {
    assert_eq!(soft_clip(0), 0);
    assert!(soft_clip(10 * 65536) < 65536);
    assert!(soft_clip(-10 * 65536) > -65536);
}

#[test]
fn soft_clip_identity_inside_half() {
    assert_eq!(soft_clip(32768), 32768);
    assert_eq!(soft_clip(-32768), -32768);
    assert_eq!(soft_clip(20000), 20000);
    assert_eq!(soft_clip(-1), -1);
}

#[test]
fn soft_clip_odd_symmetry() {
    for v in [1i64, 30000, 32768, 32769, 65536, 655360, 7_000_000] {
        assert_eq!(soft_clip(-v), -soft_clip(v));
    }
}

#[test]
fn soft_clip_strictly_bounded() {
    for v in [32769i64, 65536, 131072, 655360, 1 << 30, 1 << 40] {
        assert!(soft_clip(v) < 65536);
        assert!(soft_clip(v) > 32768);
        assert!(soft_clip(-v) > -65536);
        assert!(soft_clip(-v) < -32768);
    }
}

#[test]
fn soft_clip_saturates_monotonically_near_breakpoint() {
    // Just past the breakpoint the curve continues from 0.5 upward.
    assert!(soft_clip(32769) >= 32768);
    assert!(soft_clip(40000) > 32768);
    assert!(soft_clip(40000) < 40000);
}

#[test]
fn pitch_factor_whole_octaves_exact() {
    assert_eq!(pitch_factor(12), 2 * 65536);
    assert_eq!(pitch_factor(-12), 65536 / 2);
    assert_eq!(pitch_factor(0), 65536);
    assert_eq!(pitch_factor(24), 4 * 65536);
    assert_eq!(pitch_factor(-24), 65536 / 4);
}

#[test]
fn pitch_factor_semitone_near_tempered_ratio() {
    // One semitone up: 2^(1/12) = 1.05946... in Q16 is 69433.
    assert_eq!(pitch_factor(1), 69433);
    // Seven semitones: a fifth, about 1.4983.
    let fifth = pitch_factor(7) as f64 / 65536.0;
    assert!((fifth - 1.4983).abs() < 0.001);
}
