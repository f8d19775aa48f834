//! The engine's data model: playback settings, loaded sounds, key mappings,
//! and voices (transient playback cursors).

use vstd::prelude::*;

verus! {

/// How a triggered sound plays out.
#[derive(Clone, Copy, PartialEq, Eq, Structural, Debug)]
pub enum PlaybackMode {
    /// The sound plays once on key down and runs to its natural end.
    SingleShot,
    /// The sound loops, quantized to the tempo grid, until released.
    Loop,
}

/// How voices in the same overlap group interact.
#[derive(Clone, Copy, PartialEq, Eq, Structural, Debug)]
pub enum OverlapMode {
    /// Any number of voices may sound at once.
    Polyphonic,
    /// A new trigger silences every active voice of its group first.
    Monophonic,
}

/// The tempo-synchronized amplitude-duck presets.
#[derive(Clone, Copy, PartialEq, Eq, Structural, Debug)]
pub enum ModulationPreset {
    /// No modulation: a constant full-volume envelope.
    NoModulation,
    /// One duck cycle per quarter note.
    QuarterSidechain,
    /// One duck cycle per eighth note.
    EighthSidechain,
    /// One duck cycle per sixteenth note.
    SixteenthSidechain,
}

impl PlaybackMode {
    /// The fixed wire code of each mode.
    pub open spec fn code_spec(self) -> u8 {
        match self {
            PlaybackMode::SingleShot => 0,
            PlaybackMode::Loop => 1,
        }
    }

    /// Returns the fixed numeric code used across the call boundary.
    pub fn code(self) -> (c: u8)
        ensures
            c == self.code_spec(),
    {
        match self {
            PlaybackMode::SingleShot => 0,
            PlaybackMode::Loop => 1,
        }
    }

    /// Decodes a wire code; every unassigned code falls back to `SingleShot`.
    pub fn from_code(c: u8) -> (m: PlaybackMode)
        ensures
            m == (if c == 1 { PlaybackMode::Loop } else { PlaybackMode::SingleShot }),
    {
        if c == 1 {
            PlaybackMode::Loop
        } else {
            PlaybackMode::SingleShot
        }
    }
}

impl OverlapMode {
    /// The fixed wire code of each mode.
    pub open spec fn code_spec(self) -> u8 {
        match self {
            OverlapMode::Polyphonic => 0,
            OverlapMode::Monophonic => 1,
        }
    }

    /// Returns the fixed numeric code used across the call boundary.
    pub fn code(self) -> (c: u8)
        ensures
            c == self.code_spec(),
    {
        match self {
            OverlapMode::Polyphonic => 0,
            OverlapMode::Monophonic => 1,
        }
    }

    /// Decodes a wire code; every unassigned code falls back to `Polyphonic`.
    pub fn from_code(c: u8) -> (m: OverlapMode)
        ensures
            m == (if c == 1 { OverlapMode::Monophonic } else { OverlapMode::Polyphonic }),
    {
        if c == 1 {
            OverlapMode::Monophonic
        } else {
            OverlapMode::Polyphonic
        }
    }
}

impl ModulationPreset {
    /// The fixed wire code of each preset.
    pub open spec fn code_spec(self) -> u8 {
        match self {
            ModulationPreset::NoModulation => 0,
            ModulationPreset::QuarterSidechain => 1,
            ModulationPreset::EighthSidechain => 2,
            ModulationPreset::SixteenthSidechain => 3,
        }
    }

    /// Returns the fixed numeric code used across the call boundary.
    pub fn code(self) -> (c: u8)
        ensures
            c == self.code_spec(),
    {
        match self {
            ModulationPreset::NoModulation => 0,
            ModulationPreset::QuarterSidechain => 1,
            ModulationPreset::EighthSidechain => 2,
            ModulationPreset::SixteenthSidechain => 3,
        }
    }

    /// Decodes a wire code; every unassigned code disables modulation.
    pub fn from_code(c: u8) -> (m: ModulationPreset)
        ensures
            m == (if c == 1 { ModulationPreset::QuarterSidechain }
                else if c == 2 { ModulationPreset::EighthSidechain }
                else if c == 3 { ModulationPreset::SixteenthSidechain }
                else { ModulationPreset::NoModulation }),
    {
        if c == 1 {
            ModulationPreset::QuarterSidechain
        } else if c == 2 {
            ModulationPreset::EighthSidechain
        } else if c == 3 {
            ModulationPreset::SixteenthSidechain
        } else {
            ModulationPreset::NoModulation
        }
    }
}

/// A transient playback cursor over one loaded sound. An inactive voice's
/// other fields are stale and are never read for audio generation.
#[derive(Clone, Copy)]
pub struct Voice {
    /// Index of the sound slot this voice reads.
    pub sound_index: usize,
    /// Playback position in Q16 sample units (65536 per source sample).
    pub position: u64,
    /// Whether the voice currently sounds.
    pub active: bool,
    /// Voice gain in Q16, within `[0, 65536]`.
    pub volume: i32,
    /// Position advance per output frame in Q16 sample units.
    pub pitch: u32,
    /// Playback mode copied from the triggering mapping.
    pub mode: PlaybackMode,
    /// Overlap group tag copied from the triggering mapping.
    pub group_id: u8,
    /// Trigger code that started the voice, for release matching.
    pub key_code: u8,
    /// Whether the duck envelope applies to this voice.
    pub modulation_enabled: bool,
}

impl Voice {
    /// Range limits every voice respects, active or stale.
    pub open spec fn wf(self) -> bool {
        &&& self.sound_index < 64
        &&& 0 <= self.volume <= 65536
        &&& 16384 <= self.pitch <= 262144
    }

    /// A fresh, inactive voice.
    pub fn new() -> (v: Voice)
        ensures
            v.wf(),
            !v.active,
            v.sound_index == 0,
            v.position == 0,
            v.volume == 65536,
            v.pitch == 65536,
            v.mode == PlaybackMode::SingleShot,
            v.group_id == 0,
            v.key_code == 0,
            !v.modulation_enabled,
    {
        Voice {
            sound_index: 0,
            position: 0,
            active: false,
            volume: 65536,
            pitch: 65536,
            mode: PlaybackMode::SingleShot,
            group_id: 0,
            key_code: 0,
            modulation_enabled: false,
        }
    }
}

/// The spec-level image of a sound slot.
#[verifier::ext_equal]
pub ghost struct SoundView {
    /// The stored Q16 samples.
    pub samples: Seq<i32>,
    /// Whether the slot holds playable audio.
    pub loaded: bool,
}

impl SoundView {
    /// Capacity limit every slot respects.
    pub open spec fn wf(self) -> bool {
        self.samples.len() <= 480000
    }
}

/// One sound slot: a bounded buffer of Q16 mono samples and a loaded flag.
pub struct Sound {
    /// The stored samples; at most 480000 (ten seconds at 48 kHz).
    pub samples: Vec<i32>,
    /// Whether the slot holds playable audio.
    pub loaded: bool,
}

impl View for Sound {
    type V = SoundView;

    open spec fn view(&self) -> SoundView {
        SoundView { samples: self.samples@, loaded: self.loaded }
    }
}

impl Sound {
    /// A fresh, empty, unloaded slot.
    pub fn new() -> (s: Sound)
        ensures
            s@.wf(),
            !s@.loaded,
            s@.samples.len() == 0,
    {
        Sound { samples: Vec::new(), loaded: false }
    }
}

/// Playback settings for one trigger code. Entries are never deleted, only
/// overwritten. `has_sound` is a snapshot taken when the full mapping is
/// assigned; later loads or unloads do not refresh it.
#[derive(Clone, Copy)]
pub struct KeyMapping {
    /// Index of the sound slot the code plays.
    pub sound_index: usize,
    /// Playback mode for the code.
    pub mode: PlaybackMode,
    /// Overlap behaviour for the code.
    pub overlap_mode: OverlapMode,
    /// Overlap group tag.
    pub group_id: u8,
    /// Gain in Q16, within `[0, 65536]`.
    pub volume: i32,
    /// Pitch offset in semitones, within `[-24, 24]`.
    pub pitch_semitones: i8,
    /// Whether the duck envelope applies to voices this code starts.
    pub modulation_enabled: bool,
    /// Whether the referenced slot was loaded when the mapping was assigned.
    pub has_sound: bool,
}

impl KeyMapping {
    /// Range limits every mapping respects; a mapping that claims a sound
    /// always points inside the sound bank.
    pub open spec fn wf(self) -> bool {
        &&& 0 <= self.volume <= 65536
        &&& -24 <= self.pitch_semitones <= 24
        &&& self.has_sound ==> self.sound_index < 64
    }

    /// The default mapping: no sound, full volume, no offsets.
    pub fn new() -> (m: KeyMapping)
        ensures
            m.wf(),
            m.sound_index == 0,
            m.mode == PlaybackMode::SingleShot,
            m.overlap_mode == OverlapMode::Polyphonic,
            m.group_id == 0,
            m.volume == 65536,
            m.pitch_semitones == 0,
            !m.modulation_enabled,
            !m.has_sound,
    {
        KeyMapping {
            sound_index: 0,
            mode: PlaybackMode::SingleShot,
            overlap_mode: OverlapMode::Polyphonic,
            group_id: 0,
            volume: 65536,
            pitch_semitones: 0,
            modulation_enabled: false,
            has_sound: false,
        }
    }
}

} // verus!
