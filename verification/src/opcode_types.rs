//! The typed opcode taxonomy: one tagged variant per recognized key,
//! grouped into semantic categories, each variant carrying its validated
//! value.  Integer values are carried at their natural widths; decimal values
//! are exact [`crate::numbers::Decimal`] numbers; enumerated and free text
//! values keep the text as written.

use vstd::prelude::*;
use crate::numbers::Decimal;

verus! {

/// Opcodes for key-mapping bounds on channel key and velocity.
#[derive(Debug, Clone, PartialEq)]
pub enum KeyMapping {
    /// `lokey` (0..=127)
    LoKey(u8),
    /// `hikey` (0..=127)
    HiKey(u8),
    /// `key` (0..=127)
    Key(u8),
    /// `lovel` (0..=127)
    LoVel(u8),
    /// `hivel` (0..=127)
    HiVel(u8),
}

/// Opcodes for conditions on the MIDI state: bend, program, controllers, keyswitches.
#[derive(Debug, Clone, PartialEq)]
pub enum MidiConditions {
    /// `lochan` (1..=16)
    LowChan(u8),
    /// `hichan` (1..=16)
    HighChan(u8),
    /// `lobend` (-8192..=8192)
    LowBend(i16),
    /// `hibend` (-8192..=8192)
    HighBend(i16),
    /// `loprog` (0..=127)
    LowProg(u8),
    /// `hiprog` (0..=127)
    HighProg(u8),
    /// `sw_lokey` (0..=127)
    SwLowKey(u8),
    /// `sw_hikey` (0..=127)
    SwHighKey(u8),
    /// `sw_last` (0..=127)
    SwLast(u8),
    /// `sw_down` (0..=127)
    SwDown(u8),
    /// `sw_up` (0..=127)
    SwUp(u8),
    /// `sw_previous` (0..=127)
    SwPrevious(u8),
    /// `locc<N>` (controller index, value 0..=127)
    LowCC(u8, u8),
    /// `hicc<N>` (controller index, value 0..=127)
    HighCC(u8, u8),
}

/// Opcodes for conditions on the engine's internal state: aftertouch, randomization, tempo, timers, sequence position.
#[derive(Debug, Clone, PartialEq)]
pub enum InternalConditions {
    /// `lochanaft` (0..=127)
    LowChanAft(u8),
    /// `hichanaft` (0..=127)
    HighChanAft(u8),
    /// `lopolyaft` (0..=127)
    LowPolyAft(u8),
    /// `hipolyaft` (0..=127)
    HighPolyAft(u8),
    /// `lorand` (0..=1)
    LowRand(Decimal),
    /// `hirand` (0..=1)
    HighRand(Decimal),
    /// `lobpm` (0..=500)
    LowBpm(Decimal),
    /// `hibpm` (0..=500)
    HighBpm(Decimal),
    /// `lotimer` (0..=100)
    LowTimer(Decimal),
    /// `hitimer` (0..=100)
    HighTimer(Decimal),
    /// `seq_length` (1..=100)
    SeqLength(u8),
    /// `seq_position` (1..=100)
    SeqPosition(u8),
}

/// Opcodes for how a note event starts or stops playback.
#[derive(Debug, Clone, PartialEq)]
pub enum Triggers {
    /// `trigger` (one of `attack`, `release`, `first`, `legato`, `release_key`)
    Trigger(Vec<char>),
    /// `on_locc<N>` (controller index, value 0..=127)
    OnLowCC(u8, u8),
    /// `on_hicc<N>` (controller index, value 0..=127)
    OnHighCC(u8, u8),
}

/// Opcodes for voice grouping, stealing and routing.
#[derive(Debug, Clone, PartialEq)]
pub enum VoiceLifecycle {
    /// `group` (-1..=2147483647)
    Group(i32),
    /// `off_by` (-1..=2147483647)
    OffBy(i32),
    /// `off_mode` (one of `fast`, `normal`, `time`)
    OffMode(Vec<char>),
    /// `output` (0..=1024)
    Output(u16),
    /// `note_polyphony` (1..=100)
    NotePolyphony(u32),
}

/// Opcodes for which sample plays and how: offsets, loops, direction, delay.
#[derive(Debug, Clone, PartialEq)]
pub enum SamplePlayback {
    /// `sample` (free text)
    Sample(Vec<char>),
    /// `delay` (0..=100)
    Delay(Decimal),
    /// `delay_random` (0..=100)
    DelayRandom(Decimal),
    /// `offset` (0..=4294967295)
    Offset(u32),
    /// `offset_random` (0..=4294967295)
    OffsetRandom(u32),
    /// `end` (0..=4294967295)
    End(u32),
    /// `count` (0..=4294967295)
    Count(u32),
    /// `loop_mode` (one of `no_loop`, `one_shot`, `loop_continuous`, `loop_sustain`)
    LoopMode(Vec<char>),
    /// `loop_start` (0..=4294967295)
    LoopStart(u32),
    /// `loop_end` (0..=4294967295)
    LoopEnd(u32),
    /// `loop_crossfade` (0..=32)
    LoopCrossfade(Decimal),
    /// `direction` (one of `forward`, `reverse`)
    Direction(Vec<char>),
}

/// Opcodes for display labels for the enclosing scopes.
#[derive(Debug, Clone, PartialEq)]
pub enum InstrumentSettings {
    /// `global_label` (free text)
    GlobalLabel(Vec<char>),
    /// `master_label` (free text)
    MasterLabel(Vec<char>),
    /// `group_label` (free text)
    GroupLabel(Vec<char>),
    /// `region_label` (free text)
    RegionLabel(Vec<char>),
}

/// Opcodes for pitch offsets and tracking.
#[derive(Debug, Clone, PartialEq)]
pub enum PitchParameter {
    /// `transpose` (0..=127)
    Transpose(u8),
    /// `tune` (0..=100)
    Tune(u8),
    /// `pitch_keycenter` (0..=127)
    KeyCenter(u8),
    /// `pitch_keytrack` (0..=1200)
    KeyTrack(u16),
    /// `pitch_veltrack` (0..=9600)
    VelTrack(u16),
    /// `pitch_random` (0..=9600)
    Random(u16),
    /// `bend_up` (0..=9600)
    BendUp(u16),
    /// `bend_down` (0..=9600)
    BendDown(u16),
    /// `bend_step` (1..=1200)
    BendStep(u16),
}

/// Opcodes for the pitch envelope generator's stages.
#[derive(Debug, Clone, PartialEq)]
pub enum PitchEGParameter {
    /// `pitcheg_delay` (0..=100)
    Delay(Decimal),
    /// `pitcheg_start` (0..=100)
    Start(Decimal),
    /// `pitcheg_attack` (0..=100)
    Attack(Decimal),
    /// `pitcheg_hold` (0..=100)
    Hold(Decimal),
    /// `pitcheg_decay` (0..=100)
    Decay(Decimal),
    /// `pitcheg_sustain` (0..=100)
    Sustain(Decimal),
    /// `pitcheg_release` (0..=100)
    Release(Decimal),
    /// `pitcheg_depth` (-12000..=12000)
    Depth(i16),
}

/// Opcodes for the pitch low-frequency oscillator.
#[derive(Debug, Clone, PartialEq)]
pub enum PitchLFOParameter {
    /// `pitchlfo_delay` (0..=100)
    Delay(Decimal),
    /// `pitchlfo_fade` (0..=100)
    Fade(Decimal),
    /// `pitchlfo_freq` (0..=20)
    Freq(Decimal),
    /// `pitchlfo_depth` (-1200..=1200)
    Depth(i16),
}

/// Opcodes for the filter: type, cutoff, resonance, tracking.
#[derive(Debug, Clone, PartialEq)]
pub enum FilterParameter {
    /// `fil_type` (one of `lpf_1p`, `hpf_1p`, `lpf_2p`, `hpf_2p`, `bpf_2p`, `brf_2p`)
    FilType(Vec<char>),
    /// `cutoff` (0..=20000)
    Cutoff(Decimal),
    /// `resonance` (0..=40)
    Resonance(Decimal),
    /// `fil_keytrack` (0..=1200)
    KeyTrack(u16),
    /// `fil_keycenter` (0..=127)
    KeyCenter(u8),
    /// `fil_veltrack` (0..=9600)
    VelTrack(u16),
    /// `fil_random` (0..=9600)
    Random(u16),
}

/// Opcodes for the filter envelope generator's stages.
#[derive(Debug, Clone, PartialEq)]
pub enum FilterEGParameter {
    /// `fileg_delay` (0..=100)
    Delay(Decimal),
    /// `fileg_start` (0..=100)
    Start(Decimal),
    /// `fileg_attack` (0..=100)
    Attack(Decimal),
    /// `fileg_hold` (0..=100)
    Hold(Decimal),
    /// `fileg_decay` (0..=100)
    Decay(Decimal),
    /// `fileg_sustain` (0..=100)
    Sustain(Decimal),
    /// `fileg_release` (0..=100)
    Release(Decimal),
    /// `fileg_depth` (0..=12000)
    Depth(u16),
}

/// Opcodes for the filter low-frequency oscillator.
#[derive(Debug, Clone, PartialEq)]
pub enum FilterLFOParameter {
    /// `fillfo_delay` (0..=100)
    Delay(Decimal),
    /// `fillfo_fade` (0..=100)
    Fade(Decimal),
    /// `fillfo_freq` (0..=20)
    Freq(Decimal),
    /// `fillfo_depth` (0..=1200)
    Depth(u16),
}

/// Opcodes for gain, pan, position and the keyed crossfade bounds.
#[derive(Debug, Clone, PartialEq)]
pub enum AmplifierParameter {
    /// `volume` (-144..=6)
    Volume(Decimal),
    /// `pan` (-100..=100)
    Pan(Decimal),
    /// `amplitude` (0..=100)
    Amplitude(Decimal),
    /// `width` (-100..=100)
    Width(Decimal),
    /// `position` (-100..=100)
    Position(Decimal),
    /// `amp_keytrack` (-96..=12)
    AmpKeyTrack(Decimal),
    /// `amp_keycenter` (0..=127)
    AmpKeyCenter(u8),
    /// `amp_veltrack` (-100..=100)
    AmpVelTrack(Decimal),
    /// `amp_random` (0..=24)
    AmpRandom(Decimal),
    /// `rt_decay` (0..=200)
    RtDecay(Decimal),
    /// `xfin_lokey` (0..=127)
    CfInLowKey(u8),
    /// `xfin_hikey` (0..=127)
    CfInHighKey(u8),
    /// `xfout_lokey` (0..=127)
    CfOutLowKey(u8),
    /// `xfout_hikey` (0..=127)
    CfOutHighKey(u8),
    /// `xf_keycurve` (one of `gain`, `power`)
    CfKeyCurve(Vec<char>),
}

/// Opcodes for the amplifier envelope generator's stages.
#[derive(Debug, Clone, PartialEq)]
pub enum AmplifierEGParameter {
    /// `ampeg_delay` (0..=100)
    Delay(Decimal),
    /// `ampeg_start` (0..=100)
    Start(Decimal),
    /// `ampeg_attack` (0..=100)
    Attack(Decimal),
    /// `ampeg_hold` (0..=100)
    Hold(Decimal),
    /// `ampeg_decay` (0..=100)
    Decay(Decimal),
    /// `ampeg_sustain` (0..=100)
    Sustain(Decimal),
    /// `ampeg_release` (0..=100)
    Release(Decimal),
}

/// Opcodes for the amplifier low-frequency oscillator.
#[derive(Debug, Clone, PartialEq)]
pub enum AmplifierLFOParameter {
    /// `amplfo_delay` (0..=100)
    Delay(Decimal),
    /// `amplfo_fade` (0..=100)
    Fade(Decimal),
    /// `amplfo_freq` (0..=20)
    Freq(Decimal),
    /// `amplfo_depth` (-10..=10)
    Depth(Decimal),
}

/// Opcodes for the three-band equalizer: frequency, bandwidth and gain per band.
#[derive(Debug, Clone, PartialEq)]
pub enum EqualizerParameter {
    /// `eq1_freq` (0..=30000)
    Eq1Freq(Decimal),
    /// `eq2_freq` (0..=30000)
    Eq2Freq(Decimal),
    /// `eq3_freq` (0..=30000)
    Eq3Freq(Decimal),
    /// `eq1_bw` (0..=4)
    Eq1Bandwidth(Decimal),
    /// `eq2_bw` (0..=4)
    Eq2Bandwidth(Decimal),
    /// `eq3_bw` (0..=4)
    Eq3Bandwidth(Decimal),
    /// `eq1_gain` (-96..=24)
    Eq1Gain(Decimal),
    /// `eq2_gain` (-96..=24)
    Eq2Gain(Decimal),
    /// `eq3_gain` (-96..=24)
    Eq3Gain(Decimal),
}

/// A performance parameter: every sound-modifying opcode, by category.
#[derive(Debug, Clone, PartialEq)]
pub enum PerformanceParameter {
    Pitch(PitchParameter),
    PitchEG(PitchEGParameter),
    PitchLFO(PitchLFOParameter),
    Filter(FilterParameter),
    FilterEG(FilterEGParameter),
    FilterLFO(FilterLFOParameter),
    Amplifier(AmplifierParameter),
    AmplifierEG(AmplifierEGParameter),
    AmplifierLFO(AmplifierLFOParameter),
    Equalizer(EqualizerParameter),
}

/// One typed, range-validated opcode: a variant of the closed taxonomy.
#[derive(Debug, Clone, PartialEq)]
pub enum Opcode {
    KeyMapping(KeyMapping),
    MidiConditions(MidiConditions),
    InternalConditions(InternalConditions),
    Triggers(Triggers),
    VoiceLifecycle(VoiceLifecycle),
    SamplePlayback(SamplePlayback),
    InstrumentSettings(InstrumentSettings),
    Performance(PerformanceParameter),
}

} // verus!
