//! Behavioral tests of the engine's control surface and block processing.

use qeyloop_dsp::engine::DspEngine;
use qeyloop_dsp::types::{ModulationPreset, OverlapMode, PlaybackMode};

fn zeros(n: usize) -> Vec<i32> {
    let mut v = Vec::new();
    for _ in 0..n {
        v.push(0);
    }
    v
}

fn constant(n: usize, value: i32) -> Vec<i32> {
    let mut v = Vec::new();
    for _ in 0..n {
        v.push(value);
    }
    v
}

#[test]
fn test_engine_creation() {
    let engine = DspEngine::new(48000);
    assert_eq!(engine.get_bpm(), 120);
}

#[test]
fn unmapped_trigger_keeps_voice_count() {
    let mut e = DspEngine::new(48000);
    assert_eq!(e.get_active_voice_count(), 0);
    e.note_on(5);
    assert_eq!(e.get_active_voice_count(), 0);
    // Also when other voices are sounding.
    e.load_sound(0, &zeros(100));
    e.set_key_mapping(1, 0, PlaybackMode::Loop, OverlapMode::Polyphonic, 0, 65536, 0, false);
    e.note_on(1);
    assert_eq!(e.get_active_voice_count(), 1);
    e.note_on(200);
    assert_eq!(e.get_active_voice_count(), 1);
}

#[test]
fn monophonic_group_cuts_previous_voice() {
    let mut e = DspEngine::new(48000);
    e.load_sound(0, &zeros(1000));
    e.set_key_mapping(10, 0, PlaybackMode::Loop, OverlapMode::Monophonic, 7, 65536, 0, false);
    e.set_key_mapping(11, 0, PlaybackMode::Loop, OverlapMode::Monophonic, 7, 65536, 0, false);
    e.note_on(10);
    assert!(e.is_key_playing(10));
    assert_eq!(e.get_active_voice_count(), 1);
    e.note_on(11);
    assert!(!e.is_key_playing(10));
    assert!(e.is_key_playing(11));
    assert_eq!(e.get_active_voice_count(), 1);
}

#[test]
fn polyphonic_voices_stack() {
    let mut e = DspEngine::new(48000);
    e.load_sound(0, &zeros(1000));
    e.set_key_mapping(10, 0, PlaybackMode::Loop, OverlapMode::Polyphonic, 7, 65536, 0, false);
    e.set_key_mapping(11, 0, PlaybackMode::Loop, OverlapMode::Polyphonic, 7, 65536, 0, false);
    e.note_on(10);
    e.note_on(11);
    assert_eq!(e.get_active_voice_count(), 2);
}

#[test]
fn single_shot_ignores_release_and_completes() {
    let mut e = DspEngine::new(48000);
    e.load_sound(0, &zeros(4));
    e.set_key_mapping(3, 0, PlaybackMode::SingleShot, OverlapMode::Polyphonic, 0, 65536, 0, false);
    e.note_on(3);
    e.note_off(3);
    // Released immediately, yet the one-shot keeps sounding.
    assert!(e.is_key_playing(3));
    // Four samples at unit rate, then natural completion.
    let mut buf = zeros(12);
    e.process(&mut buf);
    assert!(!e.is_key_playing(3));
    assert_eq!(e.get_active_voice_count(), 0);
}

#[test]
fn loop_voice_stops_on_release() {
    let mut e = DspEngine::new(48000);
    e.load_sound(0, &zeros(1000));
    e.set_key_mapping(3, 0, PlaybackMode::Loop, OverlapMode::Polyphonic, 0, 65536, 0, false);
    e.note_on(3);
    assert!(e.is_key_playing(3));
    e.note_off(3);
    assert!(!e.is_key_playing(3));
    assert_eq!(e.get_active_voice_count(), 0);
}

#[test]
fn panic_clears_voices_and_rewinds_the_clock() {
    let mut e = DspEngine::new(48000);
    e.load_sound(0, &zeros(48000));
    e.set_key_mapping(1, 0, PlaybackMode::Loop, OverlapMode::Polyphonic, 0, 65536, 0, false);
    e.set_key_mapping(2, 0, PlaybackMode::SingleShot, OverlapMode::Polyphonic, 0, 65536, 0, false);
    e.set_metronome(true, 32768);
    e.note_on(1);
    e.note_on(2);
    let mut warmup = zeros(96);
    e.process(&mut warmup);
    e.panic();
    assert_eq!(e.get_active_voice_count(), 0);
    // The metronome phase restarts from zero: the block after the panic is
    // identical to a fresh engine's first block.
    let mut after_panic = zeros(96);
    e.process(&mut after_panic);
    let mut fresh = DspEngine::new(48000);
    fresh.set_metronome(true, 32768);
    let mut first = zeros(96);
    fresh.process(&mut first);
    assert_eq!(after_panic, first);
}

#[test]
fn octave_up_plays_twice_as_fast() {
    // A four-sample one-shot ends after 2 source-rate frames at +12
    // semitones, but needs 4 at offset 0.
    let mut up = DspEngine::new(48000);
    up.load_sound(0, &zeros(4));
    up.set_key_mapping(1, 0, PlaybackMode::SingleShot, OverlapMode::Polyphonic, 0, 65536, 12, false);
    up.note_on(1);
    let mut buf = zeros(6);
    up.process(&mut buf);
    assert!(!up.is_key_playing(1));

    let mut flat = DspEngine::new(48000);
    flat.load_sound(0, &zeros(4));
    flat.set_key_mapping(1, 0, PlaybackMode::SingleShot, OverlapMode::Polyphonic, 0, 65536, 0, false);
    flat.note_on(1);
    let mut buf2 = zeros(6);
    flat.process(&mut buf2);
    assert!(flat.is_key_playing(1));
}

/// Q16 multiply truncating toward zero, mirroring the engine's scaling.
fn scale(v: i64, g: i64) -> i64 {
    if v >= 0 { (v * g) / 65536 } else { -((-v) * g / 65536) }
}

/// The engine's rational sine over one cycle, in Q16.
fn sine(num: i64, den: i64) -> i64 {
    let (y, sign) = if 2 * num < den { (2 * num, 1) } else { (2 * num - den, -1) };
    let u = y * (den - y);
    sign * (16 * u * 65536) / (5 * den * den - 4 * u)
}

#[test]
fn metronome_first_beat_burst_then_silence() {
    // 48 kHz at 120 BPM: 24000 samples per beat, a 480-sample (10 ms)
    // click. With nothing loaded and nothing triggered, the first block is
    // the accented 1500 Hz burst at half volume and silence after it.
    let mut e = DspEngine::new(48000);
    e.set_metronome(true, 32768);
    let frames = 1024usize;
    let mut buf = zeros(2 * frames);
    e.process(&mut buf);
    for k in 0..frames {
        let expected = if k < 480 {
            let num = (k as i64 * 1500) % 48000;
            let s = sine(num, 48000);
            let env = 65536 - (k as i64 * 65536) / 480;
            // Burst scaled by the envelope and the 0.5 metronome volume;
            // master volume 1.0 and the clipper are the identity here.
            scale(scale(s, env), 32768)
        } else {
            0
        };
        assert_eq!(buf[2 * k] as i64, expected, "frame {}", k);
        assert_eq!(buf[2 * k + 1] as i64, expected, "frame {}", k);
    }
    // The burst actually sounds: some frame inside it is loud.
    assert!(buf.iter().take(960).any(|&s| s.unsigned_abs() > 10000));
}

#[test]
fn sixty_five_triggers_fill_exactly_sixty_four_voices() {
    let mut e = DspEngine::new(48000);
    e.load_sound(0, &zeros(48000));
    for code in 0..65u16 {
        e.set_key_mapping(code as u8, 0, PlaybackMode::Loop, OverlapMode::Polyphonic, 0, 65536, 0, false);
    }
    for code in 0..64u16 {
        e.note_on(code as u8);
    }
    assert_eq!(e.get_active_voice_count(), 64);
    assert!(e.is_key_playing(63));
    e.note_on(64);
    assert_eq!(e.get_active_voice_count(), 64);
    assert!(!e.is_key_playing(64));
}

#[test]
fn loop_wraps_at_quantized_eighth_note_length() {
    // 48 kHz, 120 BPM: an eighth note is 12000 samples. A 13000-sample
    // loop rounds to one eighth note, so playback must wrap at 12000 and
    // the loud tail in samples 12000..13000 must never sound.
    let mut e = DspEngine::new(48000);
    let mut samples = zeros(13000);
    for i in 12000..13000 {
        samples[i] = 65536;
    }
    e.load_sound(0, &samples);
    e.set_key_mapping(1, 0, PlaybackMode::Loop, OverlapMode::Polyphonic, 0, 65536, 0, false);
    e.note_on(1);
    let frames = 12500usize;
    let mut buf = zeros(2 * frames);
    e.process(&mut buf);
    assert!(e.is_key_playing(1));
    assert!(buf.iter().all(|&s| s == 0));
}

#[test]
fn single_shot_plays_past_raw_loop_boundary() {
    // The same 13000-sample clip as a one-shot does reach its loud tail:
    // the quantized wrap applies to looping voices only.
    let mut e = DspEngine::new(48000);
    let mut samples = zeros(13000);
    for i in 12000..13000 {
        samples[i] = 30000;
    }
    e.load_sound(0, &samples);
    e.set_key_mapping(1, 0, PlaybackMode::SingleShot, OverlapMode::Polyphonic, 0, 65536, 0, false);
    e.note_on(1);
    let frames = 12500usize;
    let mut buf = zeros(2 * frames);
    e.process(&mut buf);
    assert!(buf.iter().any(|&s| s == 30000));
}

#[test]
fn modulation_ducks_enabled_voices_only() {
    // At the start of a quarter-note cycle the duck envelope is 0.1 in Q16
    // (6554), so a constant 0.5 sample is scaled to 6554/2 = 3277.
    let mut e = DspEngine::new(48000);
    e.load_sound(0, &constant(100, 32768));
    e.set_key_mapping(1, 0, PlaybackMode::SingleShot, OverlapMode::Polyphonic, 0, 65536, 0, true);
    e.set_modulation_preset(ModulationPreset::QuarterSidechain);
    e.note_on(1);
    let mut buf = zeros(2);
    e.process(&mut buf);
    assert_eq!(buf[0], 3277);
    assert_eq!(buf[1], 3277);

    // The same voice without the flag plays at full level.
    let mut plain = DspEngine::new(48000);
    plain.load_sound(0, &constant(100, 32768));
    plain.set_key_mapping(1, 0, PlaybackMode::SingleShot, OverlapMode::Polyphonic, 0, 65536, 0, false);
    plain.set_modulation_preset(ModulationPreset::QuarterSidechain);
    plain.note_on(1);
    let mut buf2 = zeros(2);
    plain.process(&mut buf2);
    assert_eq!(buf2[0], 32768);
}

#[test]
fn control_inputs_are_clamped_or_ignored() {
    let mut e = DspEngine::new(48000);
    // Out-of-range slots are silent no-ops.
    e.load_sound(99, &zeros(10));
    e.unload_sound(99);
    // BPM clamps to [20, 300].
    e.set_bpm(1000);
    assert_eq!(e.get_bpm(), 300);
    e.set_bpm(5);
    assert_eq!(e.get_bpm(), 20);
    e.set_bpm(128);
    assert_eq!(e.get_bpm(), 128);
    // Volume clamps to [0, 65536]; pitch clamps to [-24, 24].
    e.set_key_volume(1, -50);
    assert_eq!(e.get_key_volume(1), 0);
    e.set_key_volume(1, 70000);
    assert_eq!(e.get_key_volume(1), 65536);
    e.set_key_pitch(1, 100);
    assert_eq!(e.get_key_pitch(1), 24);
    e.set_key_pitch(1, -100);
    assert_eq!(e.get_key_pitch(1), -24);
}

#[test]
fn mapping_fields_round_trip_through_getters() {
    let mut e = DspEngine::new(48000);
    e.load_sound(2, &zeros(10));
    e.set_key_mapping(7, 2, PlaybackMode::Loop, OverlapMode::Monophonic, 9, 40000, -3, true);
    assert_eq!(e.get_key_mode(7), PlaybackMode::Loop);
    assert_eq!(e.get_key_overlap_mode(7), OverlapMode::Monophonic);
    assert_eq!(e.get_key_group_id(7), 9);
    assert_eq!(e.get_key_volume(7), 40000);
    assert_eq!(e.get_key_pitch(7), -3);
    assert!(e.get_key_modulation(7));
    assert!(e.get_key_has_sound(7));
    assert_eq!(e.get_key_sound_index(7), 2);
    e.set_key_mode(7, PlaybackMode::SingleShot);
    assert_eq!(e.get_key_mode(7), PlaybackMode::SingleShot);
    e.set_key_modulation(7, false);
    assert!(!e.get_key_modulation(7));
    e.set_key_overlap(7, OverlapMode::Polyphonic, 4);
    assert_eq!(e.get_key_group_id(7), 4);
}

#[test]
fn has_sound_is_a_snapshot_not_live_checked() {
    let mut e = DspEngine::new(48000);
    // Mapping an empty slot records no sound...
    e.set_key_mapping(1, 0, PlaybackMode::SingleShot, OverlapMode::Polyphonic, 0, 65536, 0, false);
    assert!(!e.get_key_has_sound(1));
    // ...loading afterwards does not refresh the snapshot...
    e.load_sound(0, &zeros(10));
    assert!(!e.get_key_has_sound(1));
    // ...re-assigning does.
    e.set_key_mapping(1, 0, PlaybackMode::SingleShot, OverlapMode::Polyphonic, 0, 65536, 0, false);
    assert!(e.get_key_has_sound(1));
    // Unloading leaves the stale snapshot in place; the trigger still
    // starts a voice, which dies silently at the next block.
    e.unload_sound(0);
    assert!(e.get_key_has_sound(1));
    e.note_on(1);
    assert_eq!(e.get_active_voice_count(), 1);
    let mut buf = zeros(4);
    e.process(&mut buf);
    assert_eq!(e.get_active_voice_count(), 0);
    assert!(buf.iter().all(|&s| s == 0));
}

#[test]
fn reset_timing_restarts_the_beat_phase() {
    let mut e = DspEngine::new(48000);
    e.set_metronome(true, 32768);
    let mut a = zeros(96);
    e.process(&mut a);
    e.reset_timing();
    let mut b = zeros(96);
    e.process(&mut b);
    assert_eq!(a, b);
}

#[test]
fn hot_samples_are_stored_unchanged_and_clipped_on_output() {
    // Samples are copied as supplied, even beyond full scale; the soft
    // clipper bounds them only at the output. A 1000000 (about 15.3 in
    // unit terms) sample saturates to 65535, just under the rail.
    let mut e = DspEngine::new(48000);
    e.load_sound(0, &constant(10, 1_000_000));
    e.set_key_mapping(1, 0, PlaybackMode::SingleShot, OverlapMode::Polyphonic, 0, 65536, 0, false);
    e.note_on(1);
    let mut buf = zeros(2);
    e.process(&mut buf);
    assert_eq!(buf[0], 65535);
    // At one-sixteenth master volume the same sample re-emerges almost
    // unattenuated by the clipper: 62500 in Q16, clipped from inside.
    let mut soft = DspEngine::new(48000);
    soft.load_sound(0, &constant(10, 1_000_000));
    soft.set_key_mapping(1, 0, PlaybackMode::SingleShot, OverlapMode::Polyphonic, 0, 65536, 0, false);
    soft.note_on(1);
    soft.set_master_volume(4096);
    let mut buf2 = zeros(2);
    soft.process(&mut buf2);
    assert!(buf2[0] > 32768 && buf2[0] < 65536);
}
