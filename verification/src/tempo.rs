//! Tempo-derived quantities: samples per beat, the sidechain duck envelope,
//! the metronome click, and the quantized loop length.

use vstd::prelude::*;
use crate::math::{
    scale_q16_spec, scale_q16, sine_cycle_spec, sine_cycle, sqrt_floor, isqrt,
    lemma_sqrt_floor_props,
};
use crate::types::ModulationPreset;

verus! {

/// Samples per beat at an integer sample rate and BPM, truncated.
pub open spec fn samples_per_beat_spec(sr: int, bpm: int) -> int {
    (sr * 60) / bpm
}

/// Executable samples-per-beat.
pub fn samples_per_beat(sr: u32, bpm: u32) -> (r: u64)
    requires
        1 <= sr <= 1_000_000,
        20 <= bpm <= 300,
    ensures
        r == samples_per_beat_spec(sr as int, bpm as int),
        r <= 3_000_000,
{
    let r: u64 = (sr as u64 * 60) / (bpm as u64);
    assert(r <= 3_000_000) by (nonlinear_arith)
        requires r == (sr as int * 60) / (bpm as int) && sr <= 1_000_000 && bpm >= 20;
    r
}

/// Duck-cycle length in samples for a preset: the beat, its half, or its
/// quarter; zero when modulation is off.
pub open spec fn cycle_len_spec(preset: ModulationPreset, spb: int) -> int {
    match preset {
        ModulationPreset::NoModulation => 0,
        ModulationPreset::QuarterSidechain => spb,
        ModulationPreset::EighthSidechain => spb / 2,
        ModulationPreset::SixteenthSidechain => spb / 4,
    }
}

/// The duck envelope in Q16 for one output frame. The first tenth of the
/// cycle ramps from 0.1 up to 0.4; the rest recovers from 0.4 toward 1.0
/// along a square-root curve. A zero-length cycle disables the duck.
pub open spec fn modulation_spec(preset: ModulationPreset, sr: int, bpm: int, gsp: int) -> int {
    let cycle = cycle_len_spec(preset, samples_per_beat_spec(sr, bpm));
    if cycle <= 0 {
        65536
    } else {
        let p = gsp % cycle;
        if 10 * p < cycle {
            6554 + (196608 * p) / cycle
        } else {
            let q = ((10 * p - cycle) * 65536) / (9 * cycle);
            26214 + (39322 * (sqrt_floor((q * 65536) as nat) as int)) / 65536
        }
    }
}

/// Executable duck envelope; the result is a positive Q16 gain.
pub fn modulation_value(preset: ModulationPreset, sr: u32, bpm: u32, gsp: u64) -> (m: i64)
    requires
        1 <= sr <= 1_000_000,
        20 <= bpm <= 300,
    ensures
        m == modulation_spec(preset, sr as int, bpm as int, gsp as int),
        0 < m <= 65536,
{
    let spb: u64 = samples_per_beat(sr, bpm);
    let cycle: u64 = match preset {
        ModulationPreset::NoModulation => 0,
        ModulationPreset::QuarterSidechain => spb,
        ModulationPreset::EighthSidechain => spb / 2,
        ModulationPreset::SixteenthSidechain => spb / 4,
    };
    if cycle == 0 {
        65536
    } else {
        let p: u64 = gsp % cycle;
        if 10 * p < cycle {
            let ramp: u64 = (196608 * p) / cycle;
            assert(ramp < 19661) by (nonlinear_arith)
                requires 10 * p < cycle && 0 < cycle && ramp == (196608 * p) / (cycle as int);
            (6554 + ramp) as i64
        } else {
            let q: u64 = ((10 * p - cycle) * 65536) / (9 * cycle);
            assert(q < 65536) by (nonlinear_arith)
                requires p < cycle && 10 * p >= cycle && 0 < cycle && q == ((10 * p - cycle) * 65536) / (9 * (cycle as int));
            let root: u64 = isqrt(q * 65536);
            proof {
                lemma_sqrt_floor_props((q * 65536) as nat);
                assert(root * root <= q * 65536 < 65536 * 65536 ==> root < 65536) by (nonlinear_arith);
            }
            let rec: u64 = (39322 * root) / 65536;
            (26214 + rec) as i64
        }
    }
}

/// The metronome contribution in Q16 for one output frame: inside the first
/// ten milliseconds of each beat, a linearly fading click of the rational
/// sine tone — a higher pitch on the first beat of each four-beat measure —
/// scaled by the metronome volume; zero elsewhere or when disabled.
pub open spec fn metronome_spec(enabled: bool, vol: int, sr: int, bpm: int, gsp: int) -> int {
    if !enabled {
        0
    } else {
        let spb = samples_per_beat_spec(sr, bpm);
        if spb <= 0 {
            0
        } else {
            let pos = gsp % spb;
            let clicks = sr / 100;
            if pos < clicks {
                let freq: int = if gsp % (spb * 4) < spb { 1500 } else { 1000 };
                let s = sine_cycle_spec((pos * freq) % sr, sr);
                let env = 65536 - (pos * 65536) / clicks;
                scale_q16_spec(scale_q16_spec(s, env), vol)
            } else {
                0
            }
        }
    }
}

/// Executable metronome click.
pub fn metronome_sample(enabled: bool, vol: i32, sr: u32, bpm: u32, gsp: u64) -> (r: i64)
    requires
        1 <= sr <= 1_000_000,
        20 <= bpm <= 300,
        0 <= vol <= 65536,
    ensures
        r == metronome_spec(enabled, vol as int, sr as int, bpm as int, gsp as int),
        -65536 <= r <= 65536,
{
    if !enabled {
        return 0;
    }
    let spb: u64 = samples_per_beat(sr, bpm);
    if spb == 0 {
        return 0;
    }
    let pos: u64 = gsp % spb;
    let clicks: u64 = (sr / 100) as u64;
    if pos < clicks {
        let freq: u64 = if gsp % (spb * 4) < spb { 1500 } else { 1000 };
        let s: i32 = sine_cycle((pos * freq) % (sr as u64), sr as u64);
        let scaled: u64 = pos * 65536;
        let env: i64 = 65536 - (scaled / clicks) as i64;
        assert(scaled / clicks < 65536) by (nonlinear_arith)
            requires pos < clicks && 0 < clicks && scaled == pos * 65536;
        scale_q16(scale_q16(s as i64, env), vol as i64)
    } else {
        0
    }
}

/// The beat-quantized loop length, in whole samples: the sound's natural
/// duration at the voice's rate, snapped to the nearest whole number of
/// eighth notes. Zero — quantization off — when an eighth note has no
/// length, or when the duration rounds down to zero eighth notes.
pub open spec fn loop_target_spec(len: int, pitch: int, spb: int) -> int {
    let spe = spb / 2;
    if spe <= 0 {
        0
    } else {
        let dur = (len * 65536 * 65536) / pitch;
        let eighths = (dur + spe * 32768) / (spe * 65536);
        eighths * spe
    }
}

/// Executable quantized loop length.
pub fn loop_target(len: usize, pitch: u32, spb: u64) -> (r: u64)
    requires
        len <= 480000,
        16384 <= pitch <= 262144,
        spb <= 3_000_000,
    ensures
        r == loop_target_spec(len as int, pitch as int, spb as int),
        r <= 0x1_0000_0000,
{
    let spe: u64 = spb / 2;
    if spe == 0 {
        return 0;
    }
    assert(len * 65536 * 65536 <= 480000 * 65536 * 65536) by (nonlinear_arith)
        requires len <= 480000;
    let scaled: u64 = (len as u64) * 65536 * 65536;
    let dur: u64 = scaled / pitch as u64;
    assert(dur <= 480000 * 262144) by (nonlinear_arith)
        requires dur == scaled as int / (pitch as int) && scaled <= 480000 * 65536 * 65536 && pitch >= 16384;
    let half: u64 = spe * 32768;
    let unit: u64 = spe * 65536;
    let eighths: u64 = (dur + half) / unit;
    proof {
        assert(unit == spe * 65536 && half * 2 == unit) by (nonlinear_arith)
            requires unit == spe * 65536 && half == spe * 32768;
        assert(eighths <= dur / unit + 1) by (nonlinear_arith)
            requires eighths == (dur + half) / (unit as int) && half * 2 == unit && 0 < unit;
        assert((dur / unit) * spe <= dur / 65536) by (nonlinear_arith)
            requires unit == spe * 65536 && 0 < spe;
        assert(eighths * spe <= (dur / unit) * spe + spe) by (nonlinear_arith)
            requires eighths <= dur / unit + 1 && 0 < spe;
        assert(eighths * spe <= 480000 * 262144 / 65536 + 1_500_000) by (nonlinear_arith)
            requires eighths * spe <= dur / 65536 + spe && dur <= 480000 * 262144 && spe <= 1_500_000;
        assert(eighths <= dur / unit + 1 && dur / unit <= dur && dur <= 480000 * 262144);
    }
    eighths * spe
}

} // verus!
