//! The engine: fixed-capacity aggregate state, the control surface, and the
//! block-processing entry point.

use vstd::prelude::*;
use crate::math::{pitch_factor, pitch_factor_spec, lerp, lerp_spec, scale_q16, scale_q16_spec, soft_clip, soft_clip_spec};
use crate::tempo::{samples_per_beat, samples_per_beat_spec, modulation_value, modulation_spec, metronome_sample, metronome_spec, loop_target, loop_target_spec};
use crate::types::{KeyMapping, ModulationPreset, OverlapMode, PlaybackMode, Sound, SoundView, Voice};

verus! {

/// Number of sound slots.
pub const MAX_SOUNDS: usize = 64;

/// Number of simultaneous voices.
pub const MAX_VOICES: usize = 64;

/// Number of trigger codes.
pub const NUM_KEYS: usize = 256;

/// Longest stored clip, in samples (ten seconds at 48 kHz).
pub const MAX_SAMPLE_LENGTH: usize = 480000;

/// The spec-level image of the whole engine.
#[verifier::ext_equal]
pub ghost struct EngineView {
    /// Images of the 64 sound slots.
    pub sounds: Seq<SoundView>,
    /// The 64 playback cursors.
    pub voices: Seq<Voice>,
    /// The 256 per-code mappings.
    pub keys: Seq<KeyMapping>,
    /// Output sample rate in Hz.
    pub sample_rate: u32,
    /// Beats per minute, within `[20, 300]`.
    pub bpm: u32,
    /// Frames generated since the last timing reset.
    pub sample_pos: u64,
    /// Whether the metronome sounds.
    pub metronome_enabled: bool,
    /// Metronome gain in Q16.
    pub metronome_volume: i32,
    /// Selected duck-envelope preset.
    pub preset: ModulationPreset,
    /// Master gain in Q16.
    pub master_volume: i32,
}

impl EngineView {
    /// Well-formedness: fixed capacities and every range limit.
    pub open spec fn wf(self) -> bool {
        &&& self.sounds.len() == 64
        &&& forall|i: int| 0 <= i < 64 ==> (#[trigger] self.sounds[i]).wf()
        &&& self.voices.len() == 64
        &&& forall|i: int| 0 <= i < 64 ==> (#[trigger] self.voices[i]).wf()
        &&& self.keys.len() == 256
        &&& forall|i: int| 0 <= i < 256 ==> (#[trigger] self.keys[i]).wf()
        &&& 1 <= self.sample_rate <= 1_000_000
        &&& 20 <= self.bpm <= 300
        &&& 0 <= self.metronome_volume <= 65536
        &&& 0 <= self.master_volume <= 65536
    }

    /// Number of voices currently sounding.
    pub open spec fn active_count(self) -> int {
        count_active(self.voices, self.voices.len() as int)
    }
}

/// Number of active voices among the first `upto` entries.
pub open spec fn count_active(voices: Seq<Voice>, upto: int) -> int
    decreases upto,
{
    if upto <= 0 {
        0
    } else {
        count_active(voices, upto - 1) + if voices[upto - 1].active { 1int } else { 0int }
    }
}

/// A voice after a monophonic trigger cleared its group: silenced if it was
/// sounding in that group, untouched otherwise.
pub open spec fn mono_clear(v: Voice, group_id: u8) -> Voice {
    if v.active && v.group_id == group_id {
        Voice { active: false, ..v }
    } else {
        v
    }
}

/// Index of the first inactive voice at or after `i`, or -1 if none.
pub open spec fn first_inactive_from(voices: Seq<Voice>, i: int) -> int
    decreases voices.len() - i,
{
    if i < 0 || i >= voices.len() {
        -1
    } else if !voices[i].active {
        i
    } else {
        first_inactive_from(voices, i + 1)
    }
}

/// The voice a trigger initializes from a mapping: position zero, settings
/// copied, the pitch offset turned into a Q16 advance rate.
pub open spec fn triggered_voice(m: KeyMapping, code: u8) -> Voice {
    Voice {
        sound_index: m.sound_index,
        position: 0,
        active: true,
        volume: m.volume,
        pitch: pitch_factor_spec(m.pitch_semitones as int) as u32,
        mode: m.mode,
        group_id: m.group_id,
        key_code: code,
        modulation_enabled: m.modulation_enabled,
    }
}

/// The whole effect of a trigger: nothing without a mapped sound; otherwise
/// a monophonic mapping first silences its group, and then the first free
/// slot — if any — starts the new voice. With no free slot the trigger is
/// dropped.
pub open spec fn note_on_spec(s: EngineView, code: u8) -> EngineView {
    let m = s.keys[code as int];
    if !m.has_sound {
        s
    } else {
        let cleared = if m.overlap_mode is Monophonic {
            Seq::new(s.voices.len(), |i: int| mono_clear(s.voices[i], m.group_id))
        } else {
            s.voices
        };
        let idx = first_inactive_from(cleared, 0);
        if idx < 0 {
            EngineView { voices: cleared, ..s }
        } else {
            EngineView { voices: cleared.update(idx, triggered_voice(m, code)), ..s }
        }
    }
}

/// The whole effect of a release: every active voice started by the code
/// stops if it loops; single-shot voices play on.
pub open spec fn note_off_spec(voices: Seq<Voice>, code: u8) -> Seq<Voice> {
    Seq::new(voices.len(), |i: int| (
        if voices[i].active && voices[i].key_code == code && voices[i].mode is Loop {
            Voice { active: false, ..voices[i] }
        } else {
            voices[i]
        }
    ))
}

/// The engine: all mutable state of the instrument, owned by one caller.
pub struct DspEngine {
    /// The 64 sound slots.
    sounds: Vec<Sound>,
    /// The 64 playback cursors.
    voices: Vec<Voice>,
    /// The 256 per-code mappings.
    key_mappings: Vec<KeyMapping>,
    /// Output sample rate in Hz.
    sample_rate: u32,
    /// Beats per minute.
    bpm: u32,
    /// Frames generated since the last timing reset.
    global_sample_position: u64,
    /// Whether the metronome sounds.
    metronome_enabled: bool,
    /// Metronome gain in Q16.
    metronome_volume: i32,
    /// Selected duck-envelope preset.
    modulation_preset: ModulationPreset,
    /// Master gain in Q16.
    master_volume: i32,
}

impl View for DspEngine {
    type V = EngineView;

    closed spec fn view(&self) -> EngineView {
        EngineView {
            sounds: self.sounds@.map_values(|s: Sound| s@),
            voices: self.voices@,
            keys: self.key_mappings@,
            sample_rate: self.sample_rate,
            bpm: self.bpm,
            sample_pos: self.global_sample_position,
            metronome_enabled: self.metronome_enabled,
            metronome_volume: self.metronome_volume,
            preset: self.modulation_preset,
            master_volume: self.master_volume,
        }
    }
}

impl DspEngine {
    /// Builds an engine with every capacity pre-established: empty sound
    /// slots, inactive voices, default mappings, 120 BPM, metronome off at
    /// half volume, no modulation, full master volume. Sample rates outside
    /// `[1, 1000000]` Hz are clamped.
    pub fn new(sample_rate: u32) -> (e: DspEngine)
        ensures
            e@.wf(),
            e@.sample_rate == (if sample_rate < 1 { 1u32 } else if sample_rate > 1_000_000 { 1_000_000u32 } else { sample_rate }),
            e@.bpm == 120,
            e@.sample_pos == 0,
            !e@.metronome_enabled,
            e@.metronome_volume == 32768,
            e@.preset is NoModulation,
            e@.master_volume == 65536,
            forall|i: int| 0 <= i < 64 ==> !(#[trigger] e@.voices[i]).active,
            forall|i: int| 0 <= i < 64 ==> !(#[trigger] e@.sounds[i]).loaded,
            forall|i: int| 0 <= i < 256 ==> {
                &&& !(#[trigger] e@.keys[i]).has_sound
                &&& e@.keys[i].sound_index == 0
                &&& e@.keys[i].mode is SingleShot
                &&& e@.keys[i].overlap_mode is Polyphonic
                &&& e@.keys[i].group_id == 0
                &&& e@.keys[i].volume == 65536
                &&& e@.keys[i].pitch_semitones == 0
                &&& !e@.keys[i].modulation_enabled
            },
    {
        let sr: u32 = if sample_rate < 1 {
            1
        } else if sample_rate > 1_000_000 {
            1_000_000
        } else {
            sample_rate
        };
        let mut sounds: Vec<Sound> = Vec::new();
        let mut i: usize = 0;
        while i < 64
            invariant
                i <= 64,
                sounds@.len() == i,
                forall|j: int| 0 <= j < i ==> (#[trigger] sounds@[j])@.wf() && !sounds@[j]@.loaded,
            decreases 64 - i,
        {
            sounds.push(Sound::new());
            i = i + 1;
        }
        let mut voices: Vec<Voice> = Vec::new();
        let mut i: usize = 0;
        while i < 64
            invariant
                i <= 64,
                voices@.len() == i,
                forall|j: int| 0 <= j < i ==> (#[trigger] voices@[j]).wf() && !voices@[j].active,
            decreases 64 - i,
        {
            voices.push(Voice::new());
            i = i + 1;
        }
        let mut key_mappings: Vec<KeyMapping> = Vec::new();
        let mut i: usize = 0;
        while i < 256
            invariant
                i <= 256,
                key_mappings@.len() == i,
                forall|j: int| 0 <= j < i ==> {
                    &&& (#[trigger] key_mappings@[j]).wf()
                    &&& !key_mappings@[j].has_sound
                    &&& key_mappings@[j].sound_index == 0
                    &&& key_mappings@[j].mode is SingleShot
                    &&& key_mappings@[j].overlap_mode is Polyphonic
                    &&& key_mappings@[j].group_id == 0
                    &&& key_mappings@[j].volume == 65536
                    &&& key_mappings@[j].pitch_semitones == 0
                    &&& !key_mappings@[j].modulation_enabled
                },
            decreases 256 - i,
        {
            key_mappings.push(KeyMapping::new());
            i = i + 1;
        }
        DspEngine {
            sounds,
            voices,
            key_mappings,
            sample_rate: sr,
            bpm: 120,
            global_sample_position: 0,
            metronome_enabled: false,
            metronome_volume: 32768,
            modulation_preset: ModulationPreset::NoModulation,
            master_volume: 65536,
        }
    }

    /// Copies up to `MAX_SAMPLE_LENGTH` caller-supplied samples into a slot
    /// unchanged (truncated to capacity, never resized) and marks the slot
    /// loaded. An out-of-range slot index is ignored; nothing else changes.
    pub fn load_sound(&mut self, sound_index: usize, samples: &Vec<i32>)
        requires
            old(self)@.wf(),
        ensures
            final(self)@.wf(),
            sound_index >= 64 ==> final(self)@ == old(self)@,
            sound_index < 64 ==> final(self)@ == (EngineView {
                sounds: old(self)@.sounds.update(sound_index as int, SoundView {
                    samples: samples@.take(
                        if samples@.len() <= 480000 { samples@.len() as int } else { 480000 },
                    ),
                    loaded: true,
                }),
                ..old(self)@
            }),
    {
        if sound_index >= 64 {
            return;
        }
        let len: usize = if samples.len() <= 480000 {
            samples.len()
        } else {
            480000
        };
        let mut buf: Vec<i32> = Vec::new();
        let mut i: usize = 0;
        while i < len
            invariant
                i <= len <= 480000,
                len <= samples@.len(),
                buf@.len() == i,
                forall|j: int| 0 <= j < i ==> #[trigger] buf@[j] == samples@[j],
            decreases len - i,
        {
            buf.push(samples[i]);
            i = i + 1;
        }
        let snd = Sound { samples: buf, loaded: true };
        self.sounds.set(sound_index, snd);
        proof {
            let taken = samples@.take(
                if samples@.len() <= 480000 { samples@.len() as int } else { 480000 },
            );
            assert(self@.sounds[sound_index as int].samples =~= taken);
            assert(self@.sounds =~= old(self)@.sounds.update(sound_index as int, SoundView {
                samples: taken,
                loaded: true,
            }));
            assert(self@ =~= EngineView {
                sounds: old(self)@.sounds.update(sound_index as int, SoundView {
                    samples: taken,
                    loaded: true,
                }),
                ..old(self)@
            });
        }
    }

    /// Marks a slot unloaded and drops its samples. An out-of-range slot
    /// index is ignored. Mappings keep their `has_sound` snapshot.
    pub fn unload_sound(&mut self, sound_index: usize)
        requires
            old(self)@.wf(),
        ensures
            final(self)@.wf(),
            sound_index >= 64 ==> final(self)@ == old(self)@,
            sound_index < 64 ==> final(self)@ == (EngineView {
                sounds: old(self)@.sounds.update(sound_index as int, SoundView {
                    samples: Seq::empty(),
                    loaded: false,
                }),
                ..old(self)@
            }),
    {
        if sound_index >= 64 {
            return;
        }
        self.sounds.set(sound_index, Sound { samples: Vec::new(), loaded: false });
        proof {
            assert(self@.sounds[sound_index as int].samples =~= Seq::<i32>::empty());
            assert(self@.sounds =~= old(self)@.sounds.update(sound_index as int, SoundView {
                samples: Seq::empty(),
                loaded: false,
            }));
            assert(self@ =~= EngineView {
                sounds: old(self)@.sounds.update(sound_index as int, SoundView {
                    samples: Seq::empty(),
                    loaded: false,
                }),
                ..old(self)@
            });
        }
    }

    /// Assigns a full mapping to a code: volume and pitch are clamped on
    /// write, and `has_sound` snapshots whether the referenced slot is
    /// loaded right now.
    pub fn set_key_mapping(
        &mut self,
        key_code: u8,
        sound_index: usize,
        mode: PlaybackMode,
        overlap_mode: OverlapMode,
        group_id: u8,
        volume: i32,
        pitch_semitones: i8,
        modulation_enabled: bool,
    )
        requires
            old(self)@.wf(),
        ensures
            final(self)@.wf(),
            final(self)@ == (EngineView {
                keys: old(self)@.keys.update(key_code as int, KeyMapping {
                    sound_index,
                    mode,
                    overlap_mode,
                    group_id,
                    volume: (if volume < 0 { 0i32 } else if volume > 65536 { 65536i32 } else { volume }),
                    pitch_semitones: (if pitch_semitones < -24 { -24i8 } else if pitch_semitones > 24 { 24i8 } else { pitch_semitones }),
                    modulation_enabled,
                    has_sound: sound_index < 64 && old(self)@.sounds[sound_index as int].loaded,
                }),
                ..old(self)@
            }),
    {
        let has_sound: bool = sound_index < 64 && self.sounds[sound_index].loaded;
        let m = KeyMapping {
            sound_index,
            mode,
            overlap_mode,
            group_id,
            volume: if volume < 0 { 0 } else if volume > 65536 { 65536 } else { volume },
            pitch_semitones: if pitch_semitones < -24 { -24 } else if pitch_semitones > 24 { 24 } else { pitch_semitones },
            modulation_enabled,
            has_sound,
        };
        self.key_mappings.set(key_code as usize, m);
        proof {
            assert(self@ =~= EngineView {
                keys: old(self)@.keys.update(key_code as int, m),
                ..old(self)@
            });
        }
    }

    /// Overwrites just the playback mode of a code.
    pub fn set_key_mode(&mut self, key_code: u8, mode: PlaybackMode)
        requires
            old(self)@.wf(),
        ensures
            final(self)@.wf(),
            final(self)@ == (EngineView {
                keys: old(self)@.keys.update(key_code as int, KeyMapping {
                    mode,
                    ..old(self)@.keys[key_code as int]
                }),
                ..old(self)@
            }),
    {
        let m = KeyMapping { mode, ..self.key_mappings[key_code as usize] };
        self.key_mappings.set(key_code as usize, m);
        proof {
            assert(self@ =~= EngineView { keys: old(self)@.keys.update(key_code as int, m), ..old(self)@ });
        }
    }

    /// Overwrites just the modulation flag of a code.
    pub fn set_key_modulation(&mut self, key_code: u8, enabled: bool)
        requires
            old(self)@.wf(),
        ensures
            final(self)@.wf(),
            final(self)@ == (EngineView {
                keys: old(self)@.keys.update(key_code as int, KeyMapping {
                    modulation_enabled: enabled,
                    ..old(self)@.keys[key_code as int]
                }),
                ..old(self)@
            }),
    {
        let m = KeyMapping { modulation_enabled: enabled, ..self.key_mappings[key_code as usize] };
        self.key_mappings.set(key_code as usize, m);
        proof {
            assert(self@ =~= EngineView { keys: old(self)@.keys.update(key_code as int, m), ..old(self)@ });
        }
    }

    /// Overwrites just the volume of a code, clamped to `[0, Q16_ONE]`.
    pub fn set_key_volume(&mut self, key_code: u8, volume: i32)
        requires
            old(self)@.wf(),
        ensures
            final(self)@.wf(),
            final(self)@ == (EngineView {
                keys: old(self)@.keys.update(key_code as int, KeyMapping {
                    volume: (if volume < 0 { 0i32 } else if volume > 65536 { 65536i32 } else { volume }),
                    ..old(self)@.keys[key_code as int]
                }),
                ..old(self)@
            }),
    {
        let v: i32 = if volume < 0 { 0 } else if volume > 65536 { 65536 } else { volume };
        let m = KeyMapping { volume: v, ..self.key_mappings[key_code as usize] };
        self.key_mappings.set(key_code as usize, m);
        proof {
            assert(self@ =~= EngineView { keys: old(self)@.keys.update(key_code as int, m), ..old(self)@ });
        }
    }

    /// Overwrites just the pitch offset of a code, clamped to whole
    /// semitones in `[-24, 24]`.
    pub fn set_key_pitch(&mut self, key_code: u8, semitones: i8)
        requires
            old(self)@.wf(),
        ensures
            final(self)@.wf(),
            final(self)@ == (EngineView {
                keys: old(self)@.keys.update(key_code as int, KeyMapping {
                    pitch_semitones: (if semitones < -24 { -24i8 } else if semitones > 24 { 24i8 } else { semitones }),
                    ..old(self)@.keys[key_code as int]
                }),
                ..old(self)@
            }),
    {
        let s: i8 = if semitones < -24 { -24 } else if semitones > 24 { 24 } else { semitones };
        let m = KeyMapping { pitch_semitones: s, ..self.key_mappings[key_code as usize] };
        self.key_mappings.set(key_code as usize, m);
        proof {
            assert(self@ =~= EngineView { keys: old(self)@.keys.update(key_code as int, m), ..old(self)@ });
        }
    }

    /// Overwrites the overlap mode and group of a code.
    pub fn set_key_overlap(&mut self, key_code: u8, mode: OverlapMode, group_id: u8)
        requires
            old(self)@.wf(),
        ensures
            final(self)@.wf(),
            final(self)@ == (EngineView {
                keys: old(self)@.keys.update(key_code as int, KeyMapping {
                    overlap_mode: mode,
                    group_id,
                    ..old(self)@.keys[key_code as int]
                }),
                ..old(self)@
            }),
    {
        let m = KeyMapping { overlap_mode: mode, group_id, ..self.key_mappings[key_code as usize] };
        self.key_mappings.set(key_code as usize, m);
        proof {
            assert(self@ =~= EngineView { keys: old(self)@.keys.update(key_code as int, m), ..old(self)@ });
        }
    }

    /// Key-down: the whole effect is `note_on_spec` — a code without a
    /// mapped sound does nothing, a monophonic mapping silences its group
    /// first, and the first free voice slot (if any) starts playing.
    pub fn note_on(&mut self, key_code: u8)
        requires
            old(self)@.wf(),
        ensures
            final(self)@.wf(),
            final(self)@ == note_on_spec(old(self)@, key_code),
    {
        let m: KeyMapping = self.key_mappings[key_code as usize];
        if !m.has_sound {
            return;
        }
        let ghost cleared_spec = if m.overlap_mode is Monophonic {
            Seq::new(old(self)@.voices.len(), |i: int| mono_clear(old(self)@.voices[i], m.group_id))
        } else {
            old(self)@.voices
        };
        if m.overlap_mode.code() == 1 {
            let mut i: usize = 0;
            while i < 64
                invariant
                    i <= 64,
                    self.voices@.len() == 64,
                    cleared_spec.len() == 64,
                    m.overlap_mode is Monophonic,
                    cleared_spec == Seq::new(old(self)@.voices.len(), |k: int| mono_clear(old(self)@.voices[k], m.group_id)),
                    old(self)@.voices.len() == 64,
                    forall|j: int| 0 <= j < i ==> #[trigger] self.voices@[j] == cleared_spec[j],
                    forall|j: int| i <= j < 64 ==> #[trigger] self.voices@[j] == old(self)@.voices[j],
                    self.sounds == old(self).sounds,
                    self.key_mappings == old(self).key_mappings,
                    self.sample_rate == old(self).sample_rate,
                    self.bpm == old(self).bpm,
                    self.global_sample_position == old(self).global_sample_position,
                    self.metronome_enabled == old(self).metronome_enabled,
                    self.metronome_volume == old(self).metronome_volume,
                    self.modulation_preset == old(self).modulation_preset,
                    self.master_volume == old(self).master_volume,
                decreases 64 - i,
            {
                let v: Voice = self.voices[i];
                if v.active && v.group_id == m.group_id {
                    self.voices.set(i, Voice { active: false, ..v });
                }
                i = i + 1;
            }
            proof {
                assert(self.voices@ =~= cleared_spec);
            }
        } else {
            proof {
                assert(cleared_spec == old(self)@.voices);
            }
        }
        let mut slot: usize = 64;
        let mut i: usize = 0;
        while i < 64
            invariant_except_break
                slot == 64,
            invariant
                i <= 64,
                self.voices@.len() == 64,
                self.voices@ == cleared_spec,
                forall|j: int| 0 <= j < i ==> (#[trigger] cleared_spec[j]).active,
            ensures
                slot <= 64,
                slot == 64 ==> forall|j: int| 0 <= j < 64 ==> (#[trigger] cleared_spec[j]).active,
                slot < 64 ==> !cleared_spec[slot as int].active
                    && forall|j: int| 0 <= j < slot ==> (#[trigger] cleared_spec[j]).active,
            decreases 64 - i,
        {
            if !self.voices[i].active {
                slot = i;
                break;
            }
            i = i + 1;
        }
        proof {
            if slot < 64 {
                lemma_first_inactive(cleared_spec, slot as int);
            } else {
                assert(forall|j: int| 0 <= j < cleared_spec.len()
                    ==> (#[trigger] cleared_spec[j]).active);
                lemma_all_active(cleared_spec);
            }
        }
        if slot < 64 {
            let pitch: u32 = pitch_factor(m.pitch_semitones);
            let v = Voice {
                sound_index: m.sound_index,
                position: 0,
                active: true,
                volume: m.volume,
                pitch,
                mode: m.mode,
                group_id: m.group_id,
                key_code,
                modulation_enabled: m.modulation_enabled,
            };
            self.voices.set(slot, v);
            proof {
                assert(self.voices@ =~= cleared_spec.update(slot as int, triggered_voice(m, key_code)));
                assert(self@ =~= note_on_spec(old(self)@, key_code));
            }
        } else {
            proof {
                assert(self@ =~= note_on_spec(old(self)@, key_code));
            }
        }
    }

    /// Key-up: every active voice started by the code is silenced if it is
    /// a looping voice; single-shot voices keep playing to their natural
    /// end.
    pub fn note_off(&mut self, key_code: u8)
        requires
            old(self)@.wf(),
        ensures
            final(self)@.wf(),
            final(self)@ == (EngineView { voices: note_off_spec(old(self)@.voices, key_code), ..old(self)@ }),
            forall|i: int| 0 <= i < 64 && !((#[trigger] old(self)@.voices[i]).mode is Loop)
                ==> final(self)@.voices[i] == old(self)@.voices[i],
            forall|i: int| 0 <= i < 64 && (#[trigger] old(self)@.voices[i]).active
                && old(self)@.voices[i].key_code == key_code && old(self)@.voices[i].mode is Loop
                ==> !final(self)@.voices[i].active,
    {
        let mut i: usize = 0;
        while i < 64
            invariant
                i <= 64,
                self.voices@.len() == 64,
                old(self)@.voices.len() == 64,
                forall|j: int| 0 <= j < i ==> #[trigger] self.voices@[j] == note_off_spec(old(self)@.voices, key_code)[j],
                forall|j: int| i <= j < 64 ==> #[trigger] self.voices@[j] == old(self)@.voices[j],
                self.sounds == old(self).sounds,
                self.key_mappings == old(self).key_mappings,
                self.sample_rate == old(self).sample_rate,
                self.bpm == old(self).bpm,
                self.global_sample_position == old(self).global_sample_position,
                self.metronome_enabled == old(self).metronome_enabled,
                self.metronome_volume == old(self).metronome_volume,
                self.modulation_preset == old(self).modulation_preset,
                self.master_volume == old(self).master_volume,
            decreases 64 - i,
        {
            let v: Voice = self.voices[i];
            if v.active && v.key_code == key_code && v.mode.code() == 1 {
                self.voices.set(i, Voice { active: false, ..v });
            }
            i = i + 1;
        }
        proof {
            assert(self.voices@ =~= note_off_spec(old(self)@.voices, key_code));
            assert(self@ =~= EngineView { voices: note_off_spec(old(self)@.voices, key_code), ..old(self)@ });
        }
    }

    /// Hard stop: silences every voice and rewinds the sample counter to 0.
    pub fn panic(&mut self)
        requires
            old(self)@.wf(),
        ensures
            final(self)@.wf(),
            forall|i: int| 0 <= i < 64 ==> !(#[trigger] final(self)@.voices[i]).active,
            final(self)@.sample_pos == 0,
            final(self)@.active_count() == 0,
            final(self)@ == (EngineView {
                voices: Seq::new(old(self)@.voices.len(), |i: int| (Voice { active: false, ..old(self)@.voices[i] })),
                sample_pos: 0,
                ..old(self)@
            }),
    {
        let mut i: usize = 0;
        while i < 64
            invariant
                i <= 64,
                self.voices@.len() == 64,
                old(self)@.voices.len() == 64,
                forall|j: int| 0 <= j < i ==> #[trigger] self.voices@[j] == (Voice { active: false, ..old(self)@.voices[j] }),
                forall|j: int| i <= j < 64 ==> #[trigger] self.voices@[j] == old(self)@.voices[j],
                self.sounds == old(self).sounds,
                self.key_mappings == old(self).key_mappings,
                self.sample_rate == old(self).sample_rate,
                self.bpm == old(self).bpm,
                self.global_sample_position == old(self).global_sample_position,
                self.metronome_enabled == old(self).metronome_enabled,
                self.metronome_volume == old(self).metronome_volume,
                self.modulation_preset == old(self).modulation_preset,
                self.master_volume == old(self).master_volume,
            decreases 64 - i,
        {
            let v: Voice = self.voices[i];
            self.voices.set(i, Voice { active: false, ..v });
            i = i + 1;
        }
        self.global_sample_position = 0;
        proof {
            assert(self.voices@ =~= Seq::new(old(self)@.voices.len(), |i: int| (Voice { active: false, ..old(self)@.voices[i] })));
            assert(self@ =~= EngineView {
                voices: Seq::new(old(self)@.voices.len(), |i: int| (Voice { active: false, ..old(self)@.voices[i] })),
                sample_pos: 0,
                ..old(self)@
            });
            lemma_count_active_all_inactive(self@.voices, 64);
        }
    }

    /// Sets the tempo, clamped to `[20, 300]` BPM.
    pub fn set_bpm(&mut self, bpm: u32)
        requires
            old(self)@.wf(),
        ensures
            final(self)@.wf(),
            final(self)@ == (EngineView {
                bpm: (if bpm < 20 { 20u32 } else if bpm > 300 { 300u32 } else { bpm }),
                ..old(self)@
            }),
    {
        self.bpm = if bpm < 20 { 20 } else if bpm > 300 { 300 } else { bpm };
        proof {
            assert(self@ =~= EngineView { bpm: self.bpm, ..old(self)@ });
        }
    }

    /// The current tempo in BPM.
    pub fn get_bpm(&self) -> (bpm: u32)
        ensures
            bpm == self@.bpm,
    {
        self.bpm
    }

    /// Enables or disables the metronome and sets its volume, clamped to
    /// `[0, Q16_ONE]`.
    pub fn set_metronome(&mut self, enabled: bool, volume: i32)
        requires
            old(self)@.wf(),
        ensures
            final(self)@.wf(),
            final(self)@ == (EngineView {
                metronome_enabled: enabled,
                metronome_volume: (if volume < 0 { 0i32 } else if volume > 65536 { 65536i32 } else { volume }),
                ..old(self)@
            }),
    {
        self.metronome_enabled = enabled;
        self.metronome_volume = if volume < 0 { 0 } else if volume > 65536 { 65536 } else { volume };
        proof {
            assert(self@ =~= EngineView {
                metronome_enabled: enabled,
                metronome_volume: self.metronome_volume,
                ..old(self)@
            });
        }
    }

    /// Selects the duck-envelope preset.
    pub fn set_modulation_preset(&mut self, preset: ModulationPreset)
        requires
            old(self)@.wf(),
        ensures
            final(self)@.wf(),
            final(self)@ == (EngineView { preset, ..old(self)@ }),
    {
        self.modulation_preset = preset;
        proof {
            assert(self@ =~= EngineView { preset, ..old(self)@ });
        }
    }

    /// Sets the master volume, clamped to `[0, Q16_ONE]`.
    pub fn set_master_volume(&mut self, volume: i32)
        requires
            old(self)@.wf(),
        ensures
            final(self)@.wf(),
            final(self)@ == (EngineView {
                master_volume: (if volume < 0 { 0i32 } else if volume > 65536 { 65536i32 } else { volume }),
                ..old(self)@
            }),
    {
        self.master_volume = if volume < 0 { 0 } else if volume > 65536 { 65536 } else { volume };
        proof {
            assert(self@ =~= EngineView { master_volume: self.master_volume, ..old(self)@ });
        }
    }

    /// Number of voices currently sounding.
    pub fn get_active_voice_count(&self) -> (n: u32)
        requires
            self@.wf(),
        ensures
            n == self@.active_count(),
            n <= 64,
    {
        let mut n: u32 = 0;
        let mut i: usize = 0;
        while i < 64
            invariant
                i <= 64,
                self@.voices.len() == 64,
                n == count_active(self@.voices, i as int),
                n <= i,
            decreases 64 - i,
        {
            if self.voices[i].active {
                n = n + 1;
            }
            i = i + 1;
        }
        n
    }

    /// Whether some active voice was started by the code.
    pub fn is_key_playing(&self, key_code: u8) -> (r: bool)
        requires
            self@.wf(),
        ensures
            r == exists|i: int| 0 <= i < 64 && (#[trigger] self@.voices[i]).active
                && self@.voices[i].key_code == key_code,
    {
        let mut i: usize = 0;
        while i < 64
            invariant
                i <= 64,
                self@.voices.len() == 64,
                forall|j: int| 0 <= j < i ==> !((#[trigger] self@.voices[j]).active
                    && self@.voices[j].key_code == key_code),
            decreases 64 - i,
        {
            let v: Voice = self.voices[i];
            if v.active && v.key_code == key_code {
                return true;
            }
            i = i + 1;
        }
        false
    }

    /// Rewinds the running sample counter to 0.
    pub fn reset_timing(&mut self)
        requires
            old(self)@.wf(),
        ensures
            final(self)@.wf(),
            final(self)@ == (EngineView { sample_pos: 0, ..old(self)@ }),
    {
        self.global_sample_position = 0;
        proof {
            assert(self@ =~= EngineView { sample_pos: 0, ..old(self)@ });
        }
    }

    /// The playback mode mapped to a code.
    pub fn get_key_mode(&self, key_code: u8) -> (m: PlaybackMode)
        requires
            self@.wf(),
        ensures
            m == self@.keys[key_code as int].mode,
    {
        self.key_mappings[key_code as usize].mode
    }

    /// The Q16 volume mapped to a code.
    pub fn get_key_volume(&self, key_code: u8) -> (v: i32)
        requires
            self@.wf(),
        ensures
            v == self@.keys[key_code as int].volume,
    {
        self.key_mappings[key_code as usize].volume
    }

    /// The semitone pitch offset mapped to a code.
    pub fn get_key_pitch(&self, key_code: u8) -> (s: i8)
        requires
            self@.wf(),
        ensures
            s == self@.keys[key_code as int].pitch_semitones,
    {
        self.key_mappings[key_code as usize].pitch_semitones
    }

    /// Whether the duck envelope applies to voices the code starts.
    pub fn get_key_modulation(&self, key_code: u8) -> (b: bool)
        requires
            self@.wf(),
        ensures
            b == self@.keys[key_code as int].modulation_enabled,
    {
        self.key_mappings[key_code as usize].modulation_enabled
    }

    /// The `has_sound` snapshot of a code's mapping.
    pub fn get_key_has_sound(&self, key_code: u8) -> (b: bool)
        requires
            self@.wf(),
        ensures
            b == self@.keys[key_code as int].has_sound,
    {
        self.key_mappings[key_code as usize].has_sound
    }

    /// The sound slot index mapped to a code.
    pub fn get_key_sound_index(&self, key_code: u8) -> (i: usize)
        requires
            self@.wf(),
        ensures
            i == self@.keys[key_code as int].sound_index,
    {
        self.key_mappings[key_code as usize].sound_index
    }

    /// The overlap mode mapped to a code.
    pub fn get_key_overlap_mode(&self, key_code: u8) -> (m: OverlapMode)
        requires
            self@.wf(),
        ensures
            m == self@.keys[key_code as int].overlap_mode,
    {
        self.key_mappings[key_code as usize].overlap_mode
    }

    /// The overlap group mapped to a code.
    pub fn get_key_group_id(&self, key_code: u8) -> (g: u8)
        requires
            self@.wf(),
        ensures
            g == self@.keys[key_code as int].group_id,
    {
        self.key_mappings[key_code as usize].group_id
    }

    /// Generates one output frame: advances every voice, mixes, adds the
    /// metronome, applies the master volume and the soft clipper, and
    /// advances the sample counter by exactly one.
    fn frame_step(&mut self) -> (out: i32)
        requires
            old(self)@.wf(),
        ensures
            final(self)@.wf(),
            final(self)@ == frame_next(old(self)@),
            out == frame_output(old(self)@),
            -65536 < out < 65536,
    {
        let modv: i64 = modulation_value(self.modulation_preset, self.sample_rate, self.bpm, self.global_sample_position);
        let spb: u64 = samples_per_beat(self.sample_rate, self.bpm);
        let met: i64 = metronome_sample(self.metronome_enabled, self.metronome_volume, self.sample_rate, self.bpm, self.global_sample_position);
        let mut sum: i64 = 0;
        let mut vi: usize = 0;
        while vi < 64
            invariant
                vi <= 64,
                old(self)@.wf(),
                self.voices@.len() == 64,
                modv == frame_mod(old(self)@),
                0 < modv <= 65536,
                spb == frame_spb(old(self)@),
                spb <= 3_000_000,
                forall|j: int| 0 <= j < vi ==> #[trigger] self.voices@[j]
                    == voice_frame(old(self)@.voices[j], old(self)@.sounds, spb as int, modv as int).0,
                forall|j: int| vi <= j < 64 ==> #[trigger] self.voices@[j] == old(self)@.voices[j],
                forall|j: int| 0 <= j < 64 ==> (#[trigger] self.voices@[j]).wf(),
                sum == frame_sum(old(self)@.voices, old(self)@.sounds, spb as int, modv as int, vi as int),
                -0x1_8000_0000 * vi <= sum <= 0x1_8000_0000 * vi,
                self.sounds == old(self).sounds,
                self.key_mappings == old(self).key_mappings,
                self.sample_rate == old(self).sample_rate,
                self.bpm == old(self).bpm,
                self.global_sample_position == old(self).global_sample_position,
                self.metronome_enabled == old(self).metronome_enabled,
                self.metronome_volume == old(self).metronome_volume,
                self.modulation_preset == old(self).modulation_preset,
                self.master_volume == old(self).master_volume,
            decreases 64 - vi,
        {
            let v: Voice = self.voices[vi];
            proof {
                assert(old(self)@.sounds[v.sound_index as int] == self.sounds@[v.sound_index as int]@);
            }
            let mut c: i64 = 0;
            if v.active {
                let loaded: bool = self.sounds[v.sound_index].loaded;
                if !loaded {
                    self.voices.set(vi, Voice { active: false, ..v });
                } else {
                    let len: usize = self.sounds[v.sound_index].samples.len();
                    let fl64: u64 = v.position / 65536;
                    if fl64 >= len as u64 {
                        if v.mode == PlaybackMode::Loop {
                            self.voices.set(vi, Voice { position: v.position - (len as u64) * 65536, ..v });
                        } else {
                            self.voices.set(vi, Voice { active: false, ..v });
                        }
                    } else {
                        let is_loop: bool = v.mode == PlaybackMode::Loop;
                        let tgt: u64 = if is_loop {
                            loop_target(len, v.pitch, spb)
                        } else {
                            0
                        };
                        if is_loop && tgt > 0 && v.position >= tgt * 65536 {
                            self.voices.set(vi, Voice { position: v.position % (tgt * 65536), ..v });
                        } else {
                            let fl: usize = fl64 as usize;
                            let s1: i32 = self.sounds[v.sound_index].samples[fl];
                            let s2: i32 = if fl + 1 < len {
                                self.sounds[v.sound_index].samples[fl + 1]
                            } else {
                                s1
                            };
                            let frac: i64 = (v.position % 65536) as i64;
                            let interp: i64 = lerp(s1, s2, frac);
                            let gain: i64 = if v.modulation_enabled { modv } else { 65536 };
                            c = scale_q16(scale_q16(interp, v.volume as i64), gain);
                            self.voices.set(vi, Voice { position: v.position + v.pitch as u64, ..v });
                        }
                    }
                }
            }
            sum = sum + c;
            proof {
                assert(self.voices@[vi as int] == voice_frame(old(self)@.voices[vi as int], old(self)@.sounds, spb as int, modv as int).0);
                assert(c == voice_frame(old(self)@.voices[vi as int], old(self)@.sounds, spb as int, modv as int).1);
                assert(frame_sum(old(self)@.voices, old(self)@.sounds, spb as int, modv as int, vi + 1)
                    == frame_sum(old(self)@.voices, old(self)@.sounds, spb as int, modv as int, vi as int)
                        + voice_frame(old(self)@.voices[vi as int], old(self)@.sounds, spb as int, modv as int).1);
            }
            vi = vi + 1;
        }
        let total: i64 = sum + met;
        let scaled: i64 = scale_q16(total, self.master_volume as i64);
        let out: i32 = soft_clip(scaled);
        if self.global_sample_position == u64::MAX {
            self.global_sample_position = 0;
        } else {
            self.global_sample_position = self.global_sample_position + 1;
        }
        proof {
            assert(self.voices@ =~= frame_voices(old(self)@.voices, old(self)@.sounds, spb as int, modv as int));
            assert(self@ =~= frame_next(old(self)@));
            assert(out == frame_output(old(self)@));
        }
        out
    }

    /// Fills an interleaved stereo buffer: for each frame, the engine
    /// advances by one step and the frame's value goes to both channels.
    /// With an odd buffer length the final orphan slot is cleared to 0.
    /// The engine neither fails nor rejects any input on this path.
    pub fn process(&mut self, output: &mut Vec<i32>)
        requires
            old(self)@.wf(),
        ensures
            final(self)@.wf(),
            final(self)@ == run_frames(old(self)@, (old(output)@.len() / 2) as nat),
            final(output)@.len() == old(output)@.len(),
            forall|j: int| 0 <= j < 2 * (old(output)@.len() / 2) ==> #[trigger] final(output)@[j]
                == frame_output(run_frames(old(self)@, (j / 2) as nat)),
            old(output)@.len() % 2 == 1 ==> final(output)@[old(output)@.len() - 1] == 0,
    {
        let total_len: usize = output.len();
        let mut i: usize = 0;
        while i < total_len
            invariant
                i <= total_len,
                output@.len() == total_len,
                forall|j: int| 0 <= j < i ==> #[trigger] output@[j] == 0,
            decreases total_len - i,
        {
            output.set(i, 0);
            i = i + 1;
        }
        let frames: usize = total_len / 2;
        let mut f: usize = 0;
        while f < frames
            invariant
                f <= frames,
                frames == total_len / 2,
                output@.len() == total_len,
                old(self)@.wf(),
                self@.wf(),
                self@ == run_frames(old(self)@, f as nat),
                forall|j: int| 0 <= j < 2 * f ==> #[trigger] output@[j]
                    == frame_output(run_frames(old(self)@, (j / 2) as nat)),
                forall|j: int| 2 * f <= j < total_len ==> #[trigger] output@[j] == 0,
            decreases frames - f,
        {
            let out: i32 = self.frame_step();
            proof {
                assert(run_frames(old(self)@, (f + 1) as nat) == frame_next(run_frames(old(self)@, f as nat)));
            }
            output.set(2 * f, out);
            output.set(2 * f + 1, out);
            proof {
                let ghost fo: int = f as int;
                assert((fo as nat) == (f as nat));
                assert((2 * fo) / 2 == fo && (2 * fo + 1) / 2 == fo);
                assert(output@[2 * fo] == frame_output(run_frames(old(self)@, fo as nat)));
                assert(output@[2 * fo + 1] == frame_output(run_frames(old(self)@, fo as nat)));
                assert(forall|j: int| 0 <= j < 2 * (f + 1) ==> #[trigger] output@[j]
                    == frame_output(run_frames(old(self)@, (j / 2) as nat)));
            }
            f = f + 1;
        }
        proof {
            assert(self@ == run_frames(old(self)@, (old(output)@.len() / 2) as nat));
        }
    }
}

/// If slot `i` is inactive and everything before it is active, `i` is the
/// first inactive slot.
proof fn lemma_first_inactive(voices: Seq<Voice>, i: int)
    requires
        0 <= i < voices.len(),
        !voices[i].active,
        forall|j: int| 0 <= j < i ==> (#[trigger] voices[j]).active,
    ensures
        first_inactive_from(voices, 0) == i,
{
    lemma_first_inactive_from(voices, 0, i);
}

proof fn lemma_first_inactive_from(voices: Seq<Voice>, k: int, i: int)
    requires
        0 <= k <= i < voices.len(),
        !voices[i].active,
        forall|j: int| 0 <= j < i ==> (#[trigger] voices[j]).active,
    ensures
        first_inactive_from(voices, k) == i,
    decreases voices.len() - k,
{
    if k < i {
        lemma_first_inactive_from(voices, k + 1, i);
    }
}

/// With every slot active there is no first inactive slot.
proof fn lemma_all_active(voices: Seq<Voice>)
    requires
        forall|j: int| 0 <= j < voices.len() ==> (#[trigger] voices[j]).active,
    ensures
        first_inactive_from(voices, 0) == -1,
{
    lemma_all_active_from(voices, 0);
}

proof fn lemma_all_active_from(voices: Seq<Voice>, k: int)
    requires
        0 <= k <= voices.len(),
        forall|j: int| 0 <= j < voices.len() ==> (#[trigger] voices[j]).active,
    ensures
        first_inactive_from(voices, k) == -1,
    decreases voices.len() - k,
{
    if k < voices.len() {
        lemma_all_active_from(voices, k + 1);
    }
}

/// A sequence of inactive voices counts zero active ones.
proof fn lemma_count_active_all_inactive(voices: Seq<Voice>, upto: int)
    requires
        upto <= voices.len(),
        forall|j: int| 0 <= j < voices.len() ==> !(#[trigger] voices[j]).active,
    ensures
        count_active(voices, upto) == 0,
    decreases upto,
{
    if upto > 0 {
        lemma_count_active_all_inactive(voices, upto - 1);
    }
}

/// Samples per beat of a state, from its sample rate and tempo.
pub open spec fn frame_spb(s: EngineView) -> int {
    samples_per_beat_spec(s.sample_rate as int, s.bpm as int)
}

/// The duck-envelope value of a state's current frame.
pub open spec fn frame_mod(s: EngineView) -> int {
    modulation_spec(s.preset, s.sample_rate as int, s.bpm as int, s.sample_pos as int)
}

/// One voice's step over one output frame: the advanced (or silenced, or
/// wrapped) voice, and its Q16 contribution to the frame. A voice whose
/// sound was unloaded dies silently; one past the end of its sound wraps
/// (looping) or ends (single-shot); a looping voice at or past its
/// beat-quantized target length wraps modulo that target; otherwise the
/// voice contributes its interpolated sample scaled by volume and — if
/// enabled — the duck envelope, and advances by its pitch rate. Wrapping
/// and dying contribute nothing in the frame they happen.
pub open spec fn voice_frame(v: Voice, sounds: Seq<SoundView>, spb: int, modv: int) -> (Voice, int) {
    if !v.active {
        (v, 0)
    } else {
        let snd = sounds[v.sound_index as int];
        if !snd.loaded {
            (Voice { active: false, ..v }, 0)
        } else {
            let len = snd.samples.len() as int;
            let fl = v.position as int / 65536;
            if fl >= len {
                if v.mode is Loop {
                    (Voice { position: (v.position - len * 65536) as u64, ..v }, 0)
                } else {
                    (Voice { active: false, ..v }, 0)
                }
            } else {
                let tgt = loop_target_spec(len, v.pitch as int, spb);
                if v.mode is Loop && tgt > 0 && v.position >= tgt * 65536 {
                    (Voice { position: (v.position as int % (tgt * 65536)) as u64, ..v }, 0)
                } else {
                    let s1 = snd.samples[fl];
                    let s2 = if fl + 1 < len { snd.samples[fl + 1] } else { s1 };
                    let interp = lerp_spec(s1 as int, s2 as int, v.position as int % 65536);
                    let gain: int = if v.modulation_enabled { modv } else { 65536 };
                    let c = scale_q16_spec(scale_q16_spec(interp, v.volume as int), gain);
                    (Voice { position: (v.position + v.pitch) as u64, ..v }, c)
                }
            }
        }
    }
}

/// All voices after one frame.
pub open spec fn frame_voices(voices: Seq<Voice>, sounds: Seq<SoundView>, spb: int, modv: int) -> Seq<Voice> {
    Seq::new(voices.len(), |i: int| voice_frame(voices[i], sounds, spb, modv).0)
}

/// Sum of the first `upto` voices' contributions to one frame.
pub open spec fn frame_sum(voices: Seq<Voice>, sounds: Seq<SoundView>, spb: int, modv: int, upto: int) -> int
    decreases upto,
{
    if upto <= 0 {
        0
    } else {
        frame_sum(voices, sounds, spb, modv, upto - 1)
            + voice_frame(voices[upto - 1], sounds, spb, modv).1
    }
}

/// The Q16 value a state writes to both stereo channels of its current
/// frame: voices plus metronome, scaled by the master volume, soft-clipped.
pub open spec fn frame_output(s: EngineView) -> int {
    soft_clip_spec(scale_q16_spec(
        frame_sum(s.voices, s.sounds, frame_spb(s), frame_mod(s), 64)
            + metronome_spec(s.metronome_enabled, s.metronome_volume as int,
                s.sample_rate as int, s.bpm as int, s.sample_pos as int),
        s.master_volume as int,
    ))
}

/// The sample counter after one frame.
pub open spec fn bump_pos(g: u64) -> u64 {
    if g == u64::MAX { 0 } else { (g + 1) as u64 }
}

/// The whole state after one frame.
pub open spec fn frame_next(s: EngineView) -> EngineView {
    EngineView {
        voices: frame_voices(s.voices, s.sounds, frame_spb(s), frame_mod(s)),
        sample_pos: bump_pos(s.sample_pos),
        ..s
    }
}

/// The state after `n` frames.
pub open spec fn run_frames(s: EngineView, n: nat) -> EngineView
    decreases n,
{
    if n == 0 {
        s
    } else {
        frame_next(run_frames(s, (n - 1) as nat))
    }
}

/// Where defined, the first-inactive index lies in range and names an
/// inactive slot.
proof fn lemma_first_inactive_range(voices: Seq<Voice>, k: int)
    requires
        0 <= k <= voices.len(),
    ensures
        first_inactive_from(voices, k) == -1
            || (k <= first_inactive_from(voices, k) < voices.len()
                && !voices[first_inactive_from(voices, k)].active),
    decreases voices.len() - k,
{
    if k < voices.len() && voices[k].active {
        lemma_first_inactive_range(voices, k + 1);
    }
}

/// Triggering a code with no mapped sound changes nothing — in particular
/// the active-voice count stays as it was.
pub proof fn lemma_unmapped_trigger_is_noop(s: EngineView, code: u8)
    requires
        s.wf(),
        !s.keys[code as int].has_sound,
    ensures
        note_on_spec(s, code) == s,
        note_on_spec(s, code).active_count() == s.active_count(),
{
}

/// Monophonic group exclusivity: after triggering a monophonic code, every
/// voice that had been sounding in the code's group is either silent or is
/// the newly started voice itself (at position 0, carrying the new code) —
/// within the same control step, before any audio is generated.
pub proof fn lemma_monophonic_group_exclusive(s: EngineView, code: u8)
    requires
        s.wf(),
        s.keys[code as int].has_sound,
        s.keys[code as int].overlap_mode is Monophonic,
    ensures
        forall|i: int| 0 <= i < 64 && (#[trigger] s.voices[i]).active
            && s.voices[i].group_id == s.keys[code as int].group_id
            ==> !note_on_spec(s, code).voices[i].active
                || (note_on_spec(s, code).voices[i].key_code == code
                    && note_on_spec(s, code).voices[i].position == 0),
{
    let m = s.keys[code as int];
    let cleared = Seq::new(s.voices.len(), |i: int| mono_clear(s.voices[i], m.group_id));
    let idx = first_inactive_from(cleared, 0);
    lemma_first_inactive_range(cleared, 0);
    assert forall|i: int| 0 <= i < 64 && (#[trigger] s.voices[i]).active
        && s.voices[i].group_id == m.group_id
        implies !note_on_spec(s, code).voices[i].active
            || (note_on_spec(s, code).voices[i].key_code == code
                && note_on_spec(s, code).voices[i].position == 0) by {
        assert(cleared[i] == mono_clear(s.voices[i], m.group_id));
        assert(!cleared[i].active);
        if idx >= 0 && idx == i {
            assert(note_on_spec(s, code).voices[i] == triggered_voice(m, code));
        } else {
            assert(note_on_spec(s, code).voices[i] == cleared[i]);
        }
    }
}

/// After a monophonic trigger, a key other than the new one is silent —
/// provided every active voice carrying that key sat in the trigger's
/// group. (An active voice of another group that shares the key survives
/// the purge and keeps the key sounding, here as in any faithful
/// implementation of the purge.)
pub proof fn lemma_monophonic_purged_key_silent(s: EngineView, code: u8, k: u8)
    requires
        s.wf(),
        s.keys[code as int].has_sound,
        s.keys[code as int].overlap_mode is Monophonic,
        k != code,
        forall|i: int| 0 <= i < 64 && (#[trigger] s.voices[i]).active && s.voices[i].key_code == k
            ==> s.voices[i].group_id == s.keys[code as int].group_id,
    ensures
        forall|i: int| 0 <= i < 64
            ==> !((#[trigger] note_on_spec(s, code).voices[i]).active
                && note_on_spec(s, code).voices[i].key_code == k),
{
    let m = s.keys[code as int];
    let cleared = Seq::new(s.voices.len(), |i: int| mono_clear(s.voices[i], m.group_id));
    let idx = first_inactive_from(cleared, 0);
    lemma_first_inactive_range(cleared, 0);
    assert forall|i: int| 0 <= i < 64
        implies !((#[trigger] note_on_spec(s, code).voices[i]).active
            && note_on_spec(s, code).voices[i].key_code == k) by {
        if idx >= 0 && idx == i {
            assert(note_on_spec(s, code).voices[i] == triggered_voice(m, code));
        } else {
            assert(note_on_spec(s, code).voices[i] == cleared[i]);
            assert(cleared[i] == mono_clear(s.voices[i], m.group_id));
        }
    }
}

/// Voice-pool exhaustion: with every slot already sounding, a polyphonic
/// trigger is dropped whole — the state does not change at all.
pub proof fn lemma_full_pool_drops_trigger(s: EngineView, code: u8)
    requires
        s.wf(),
        s.keys[code as int].overlap_mode is Polyphonic,
        forall|i: int| 0 <= i < 64 ==> (#[trigger] s.voices[i]).active,
    ensures
        note_on_spec(s, code) == s,
{
    if s.keys[code as int].has_sound {
        lemma_all_active(s.voices);
        assert(note_on_spec(s, code) =~= s);
    }
}

/// Loop quantization: a looping voice that reaches its beat-quantized
/// target length — while still inside its raw sample data — wraps modulo
/// that target, not modulo the raw length, and contributes nothing in the
/// frame it wraps.
pub proof fn lemma_quantized_loop_wrap(v: Voice, sounds: Seq<SoundView>, spb: int, modv: int)
    requires
        v.wf(),
        sounds.len() == 64,
        v.active,
        sounds[v.sound_index as int].loaded,
        v.position as int / 65536 < sounds[v.sound_index as int].samples.len(),
        v.mode is Loop,
        loop_target_spec(sounds[v.sound_index as int].samples.len() as int, v.pitch as int, spb) > 0,
        v.position >= loop_target_spec(sounds[v.sound_index as int].samples.len() as int, v.pitch as int, spb) * 65536,
    ensures
        voice_frame(v, sounds, spb, modv).0.position
            == v.position as int
                % (loop_target_spec(sounds[v.sound_index as int].samples.len() as int, v.pitch as int, spb) * 65536),
        voice_frame(v, sounds, spb, modv).1 == 0,
        voice_frame(v, sounds, spb, modv).0.active,
{
    let tgt = loop_target_spec(sounds[v.sound_index as int].samples.len() as int, v.pitch as int, spb);
    assert(0 <= v.position as int % (tgt * 65536) < tgt * 65536) by (nonlinear_arith)
        requires tgt * 65536 > 0 && v.position >= 0;
}

/// An octave up doubles a triggered voice's advance rate exactly, and an
/// octave down halves it exactly.
pub proof fn lemma_octave_trigger_rate(m: KeyMapping, code: u8)
    requires
        -24 <= m.pitch_semitones <= 24,
    ensures
        m.pitch_semitones == 12 ==> triggered_voice(m, code).pitch == 2 * 65536,
        m.pitch_semitones == -12 ==> triggered_voice(m, code).pitch == 65536int / 2,
        m.pitch_semitones == 0 ==> triggered_voice(m, code).pitch == 65536,
{
    crate::math::lemma_pitch_factor_octaves();
}

} // verus!
