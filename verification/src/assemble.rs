//! The document assembler: walks the ordered header blocks, enforces the
//! nesting rules, and produces the final instrument tree.  A control
//! header may stand only first; global headers may stand only before any
//! master, group or region header; each group or region inherits by
//! nearest-enclosing-scope lookup, resolved lazily.  Curve and effect
//! headers become sibling records outside the inheritance chain.

use vstd::prelude::*;
use crate::control::{interp_control, parse_control, empty_gcontrol, Control, CtlOut};
use crate::numbers::{parse_dec, parse_dec_spec, parse_int, parse_int_spec, dec_in_range, Decimal};
use crate::opcode_types::Opcode;
use crate::preprocess::clone_chars;
use crate::region::{bad_ops, classify_block, errs_match, region_matches, Region};
use crate::table::CharMap;
use crate::tokenizer::{block_views, op_views, GBlock, GOp, HeaderBlock, HeaderType};
use crate::SfzError;

verus! {

/// The effect type, drawn from two disjoint vocabularies: the
/// engine-specific one (names prefixed `mda_`) and the general-purpose
/// one.
#[derive(Debug, Clone, Copy, PartialEq, Eq, Structural)]
pub enum AriaEffect {
    Limiter,
    Overdrive,
    Leslie,
    RingMod,
    Delay,
    Bandisto,
    Ambience,
    DubDelay,
    Detune,
    Dither,
    Combo,
    Degrade,
    SubSynth,
    RezFilter,
}

/// The general-purpose effect vocabulary.
#[derive(Debug, Clone, Copy, PartialEq, Eq, Structural)]
pub enum SfzEffect {
    Apan,
    Comp,
    Delay,
    Disto,
    Eq,
    Filter,
    Fverb,
    Gate,
    Limiter,
    Lofi,
    Mverb,
    Phaser,
    Static,
    Strings,
    Tdfir,
}

/// An effect type from either vocabulary.
#[derive(Debug, Clone, Copy, PartialEq, Eq, Structural)]
pub enum EffectType {
    AriaEffects(AriaEffect),
    SfzEffects(SfzEffect),
}

/// An effect bus destination.
#[derive(Debug, Clone, Copy, PartialEq, Eq, Structural)]
pub enum BusOption {
    Main,
    Aux1,
    Aux2,
    Aux3,
    Aux4,
    Aux5,
    Aux6,
    Aux7,
    Aux8,
    Fx1,
    Fx2,
    Fx3,
    Fx4,
    Midi,
}

/// One `<effect>` record: routing and send gains.
#[derive(Debug, Clone, PartialEq)]
pub struct Effect {
    /// The effect type, when a `type` opcode named one.
    pub effect_type: Option<EffectType>,
    /// Offset added to parameter indices (`param_offset`, full `u32`).
    pub param_offset: u32,
    /// Gain into the first effect bus (`effect1`, `0..=100`).
    pub effect_one: Decimal,
    /// Gain into the second effect bus (`effect2`, `0..=100`).
    pub effect_two: Decimal,
    /// Gain into the third effect bus (`effect3`, `0..=100`).
    pub effect_three: Decimal,
    /// Gain into the fourth effect bus (`effect4`, `0..=100`).
    pub effect_four: Decimal,
    /// The destination bus (`bus`).
    pub bus: BusOption,
    /// Processing order index (`dsp_order`, `0..=10`).
    pub dsp_order: u8,
    /// Unrecognized keys with their raw values, preserved verbatim.
    pub parameters: CharMap<Vec<char>>,
}

/// One `<curve>` record: its index and its points in document order.
#[derive(Debug, Clone, PartialEq)]
pub struct Curve {
    /// The curve's index (`curve_index`, `0..=255`).
    pub index: u32,
    /// The remaining opcodes as `(key, value)` points, each a decimal in
    /// `-1..=1`.
    pub values: Vec<(Vec<char>, Decimal)>,
}

/// The effect named by a `type` value, if any.
pub open spec fn effect_type_spec(value: Seq<char>) -> Option<EffectType> {
    if value == "mda_limiter"@ {
        Some(EffectType::AriaEffects(AriaEffect::Limiter))
    } else if value == "mda_overdrive"@ {
        Some(EffectType::AriaEffects(AriaEffect::Overdrive))
    } else if value == "mda_leslie"@ {
        Some(EffectType::AriaEffects(AriaEffect::Leslie))
    } else if value == "mda_ringmod"@ {
        Some(EffectType::AriaEffects(AriaEffect::RingMod))
    } else if value == "mda_delay"@ {
        Some(EffectType::AriaEffects(AriaEffect::Delay))
    } else if value == "mda_bandisto"@ {
        Some(EffectType::AriaEffects(AriaEffect::Bandisto))
    } else if value == "mda_ambience"@ {
        Some(EffectType::AriaEffects(AriaEffect::Ambience))
    } else if value == "mda_dubdelay"@ {
        Some(EffectType::AriaEffects(AriaEffect::DubDelay))
    } else if value == "mda_detune"@ {
        Some(EffectType::AriaEffects(AriaEffect::Detune))
    } else if value == "mda_dither"@ {
        Some(EffectType::AriaEffects(AriaEffect::Dither))
    } else if value == "mda_combo"@ {
        Some(EffectType::AriaEffects(AriaEffect::Combo))
    } else if value == "mda_degrade"@ {
        Some(EffectType::AriaEffects(AriaEffect::Degrade))
    } else if value == "mda_subsynth"@ {
        Some(EffectType::AriaEffects(AriaEffect::SubSynth))
    } else if value == "mda_rezfilter"@ {
        Some(EffectType::AriaEffects(AriaEffect::RezFilter))
    } else if value == "apan"@ {
        Some(EffectType::SfzEffects(SfzEffect::Apan))
    } else if value == "comp"@ {
        Some(EffectType::SfzEffects(SfzEffect::Comp))
    } else if value == "delay"@ {
        Some(EffectType::SfzEffects(SfzEffect::Delay))
    } else if value == "disto"@ {
        Some(EffectType::SfzEffects(SfzEffect::Disto))
    } else if value == "eq"@ {
        Some(EffectType::SfzEffects(SfzEffect::Eq))
    } else if value == "filter"@ {
        Some(EffectType::SfzEffects(SfzEffect::Filter))
    } else if value == "fverb"@ {
        Some(EffectType::SfzEffects(SfzEffect::Fverb))
    } else if value == "gate"@ {
        Some(EffectType::SfzEffects(SfzEffect::Gate))
    } else if value == "limiter"@ {
        Some(EffectType::SfzEffects(SfzEffect::Limiter))
    } else if value == "lofi"@ {
        Some(EffectType::SfzEffects(SfzEffect::Lofi))
    } else if value == "mverb"@ {
        Some(EffectType::SfzEffects(SfzEffect::Mverb))
    } else if value == "phaser"@ {
        Some(EffectType::SfzEffects(SfzEffect::Phaser))
    } else if value == "static"@ {
        Some(EffectType::SfzEffects(SfzEffect::Static))
    } else if value == "strings"@ {
        Some(EffectType::SfzEffects(SfzEffect::Strings))
    } else if value == "tdfir"@ {
        Some(EffectType::SfzEffects(SfzEffect::Tdfir))
    } else {
        None
    }
}

/// Looks a `type` value up in the two effect vocabularies.
pub fn parse_effect_type(value: &Vec<char>) -> (r: Option<EffectType>)
    ensures
        r == effect_type_spec(value@),
{
    proof {
        reveal_strlit("mda_limiter");
        reveal_strlit("mda_overdrive");
        reveal_strlit("mda_leslie");
        reveal_strlit("mda_ringmod");
        reveal_strlit("mda_delay");
        reveal_strlit("mda_bandisto");
        reveal_strlit("mda_ambience");
        reveal_strlit("mda_dubdelay");
        reveal_strlit("mda_detune");
        reveal_strlit("mda_dither");
        reveal_strlit("mda_combo");
        reveal_strlit("mda_degrade");
        reveal_strlit("mda_subsynth");
        reveal_strlit("mda_rezfilter");
        reveal_strlit("apan");
        reveal_strlit("comp");
        reveal_strlit("delay");
        reveal_strlit("disto");
        reveal_strlit("eq");
        reveal_strlit("filter");
        reveal_strlit("fverb");
        reveal_strlit("gate");
        reveal_strlit("limiter");
        reveal_strlit("lofi");
        reveal_strlit("mverb");
        reveal_strlit("phaser");
        reveal_strlit("static");
        reveal_strlit("strings");
        reveal_strlit("tdfir");
    }
    if crate::lexer::chars_eq_lit(value, "mda_limiter") {
        Some(EffectType::AriaEffects(AriaEffect::Limiter))
    } else if crate::lexer::chars_eq_lit(value, "mda_overdrive") {
        Some(EffectType::AriaEffects(AriaEffect::Overdrive))
    } else if crate::lexer::chars_eq_lit(value, "mda_leslie") {
        Some(EffectType::AriaEffects(AriaEffect::Leslie))
    } else if crate::lexer::chars_eq_lit(value, "mda_ringmod") {
        Some(EffectType::AriaEffects(AriaEffect::RingMod))
    } else if crate::lexer::chars_eq_lit(value, "mda_delay") {
        Some(EffectType::AriaEffects(AriaEffect::Delay))
    } else if crate::lexer::chars_eq_lit(value, "mda_bandisto") {
        Some(EffectType::AriaEffects(AriaEffect::Bandisto))
    } else if crate::lexer::chars_eq_lit(value, "mda_ambience") {
        Some(EffectType::AriaEffects(AriaEffect::Ambience))
    } else if crate::lexer::chars_eq_lit(value, "mda_dubdelay") {
        Some(EffectType::AriaEffects(AriaEffect::DubDelay))
    } else if crate::lexer::chars_eq_lit(value, "mda_detune") {
        Some(EffectType::AriaEffects(AriaEffect::Detune))
    } else if crate::lexer::chars_eq_lit(value, "mda_dither") {
        Some(EffectType::AriaEffects(AriaEffect::Dither))
    } else if crate::lexer::chars_eq_lit(value, "mda_combo") {
        Some(EffectType::AriaEffects(AriaEffect::Combo))
    } else if crate::lexer::chars_eq_lit(value, "mda_degrade") {
        Some(EffectType::AriaEffects(AriaEffect::Degrade))
    } else if crate::lexer::chars_eq_lit(value, "mda_subsynth") {
        Some(EffectType::AriaEffects(AriaEffect::SubSynth))
    } else if crate::lexer::chars_eq_lit(value, "mda_rezfilter") {
        Some(EffectType::AriaEffects(AriaEffect::RezFilter))
    } else if crate::lexer::chars_eq_lit(value, "apan") {
        Some(EffectType::SfzEffects(SfzEffect::Apan))
    } else if crate::lexer::chars_eq_lit(value, "comp") {
        Some(EffectType::SfzEffects(SfzEffect::Comp))
    } else if crate::lexer::chars_eq_lit(value, "delay") {
        Some(EffectType::SfzEffects(SfzEffect::Delay))
    } else if crate::lexer::chars_eq_lit(value, "disto") {
        Some(EffectType::SfzEffects(SfzEffect::Disto))
    } else if crate::lexer::chars_eq_lit(value, "eq") {
        Some(EffectType::SfzEffects(SfzEffect::Eq))
    } else if crate::lexer::chars_eq_lit(value, "filter") {
        Some(EffectType::SfzEffects(SfzEffect::Filter))
    } else if crate::lexer::chars_eq_lit(value, "fverb") {
        Some(EffectType::SfzEffects(SfzEffect::Fverb))
    } else if crate::lexer::chars_eq_lit(value, "gate") {
        Some(EffectType::SfzEffects(SfzEffect::Gate))
    } else if crate::lexer::chars_eq_lit(value, "limiter") {
        Some(EffectType::SfzEffects(SfzEffect::Limiter))
    } else if crate::lexer::chars_eq_lit(value, "lofi") {
        Some(EffectType::SfzEffects(SfzEffect::Lofi))
    } else if crate::lexer::chars_eq_lit(value, "mverb") {
        Some(EffectType::SfzEffects(SfzEffect::Mverb))
    } else if crate::lexer::chars_eq_lit(value, "phaser") {
        Some(EffectType::SfzEffects(SfzEffect::Phaser))
    } else if crate::lexer::chars_eq_lit(value, "static") {
        Some(EffectType::SfzEffects(SfzEffect::Static))
    } else if crate::lexer::chars_eq_lit(value, "strings") {
        Some(EffectType::SfzEffects(SfzEffect::Strings))
    } else if crate::lexer::chars_eq_lit(value, "tdfir") {
        Some(EffectType::SfzEffects(SfzEffect::Tdfir))
    } else {
        None
    }
}

/// The bus named by a `bus` value, if any.
pub open spec fn bus_spec(value: Seq<char>) -> Option<BusOption> {
    if value == "main"@ {
        Some(BusOption::Main)
    } else if value == "aux1"@ {
        Some(BusOption::Aux1)
    } else if value == "aux2"@ {
        Some(BusOption::Aux2)
    } else if value == "aux3"@ {
        Some(BusOption::Aux3)
    } else if value == "aux4"@ {
        Some(BusOption::Aux4)
    } else if value == "aux5"@ {
        Some(BusOption::Aux5)
    } else if value == "aux6"@ {
        Some(BusOption::Aux6)
    } else if value == "aux7"@ {
        Some(BusOption::Aux7)
    } else if value == "aux8"@ {
        Some(BusOption::Aux8)
    } else if value == "fx1"@ {
        Some(BusOption::Fx1)
    } else if value == "fx2"@ {
        Some(BusOption::Fx2)
    } else if value == "fx3"@ {
        Some(BusOption::Fx3)
    } else if value == "fx4"@ {
        Some(BusOption::Fx4)
    } else if value == "midi"@ {
        Some(BusOption::Midi)
    } else {
        None
    }
}

/// Looks a `bus` value up.
pub fn parse_bus(value: &Vec<char>) -> (r: Option<BusOption>)
    ensures
        r == bus_spec(value@),
{
    proof {
        reveal_strlit("main");
        reveal_strlit("aux1");
        reveal_strlit("aux2");
        reveal_strlit("aux3");
        reveal_strlit("aux4");
        reveal_strlit("aux5");
        reveal_strlit("aux6");
        reveal_strlit("aux7");
        reveal_strlit("aux8");
        reveal_strlit("fx1");
        reveal_strlit("fx2");
        reveal_strlit("fx3");
        reveal_strlit("fx4");
        reveal_strlit("midi");
    }
    if crate::lexer::chars_eq_lit(value, "main") {
        Some(BusOption::Main)
    } else if crate::lexer::chars_eq_lit(value, "aux1") {
        Some(BusOption::Aux1)
    } else if crate::lexer::chars_eq_lit(value, "aux2") {
        Some(BusOption::Aux2)
    } else if crate::lexer::chars_eq_lit(value, "aux3") {
        Some(BusOption::Aux3)
    } else if crate::lexer::chars_eq_lit(value, "aux4") {
        Some(BusOption::Aux4)
    } else if crate::lexer::chars_eq_lit(value, "aux5") {
        Some(BusOption::Aux5)
    } else if crate::lexer::chars_eq_lit(value, "aux6") {
        Some(BusOption::Aux6)
    } else if crate::lexer::chars_eq_lit(value, "aux7") {
        Some(BusOption::Aux7)
    } else if crate::lexer::chars_eq_lit(value, "aux8") {
        Some(BusOption::Aux8)
    } else if crate::lexer::chars_eq_lit(value, "fx1") {
        Some(BusOption::Fx1)
    } else if crate::lexer::chars_eq_lit(value, "fx2") {
        Some(BusOption::Fx2)
    } else if crate::lexer::chars_eq_lit(value, "fx3") {
        Some(BusOption::Fx3)
    } else if crate::lexer::chars_eq_lit(value, "fx4") {
        Some(BusOption::Fx4)
    } else if crate::lexer::chars_eq_lit(value, "midi") {
        Some(BusOption::Midi)
    } else {
        None
    }
}

/// One scope of the inheritance tree, with a back-reference to its
/// enclosing scope; the root global scope has none.
#[derive(Debug, Clone, PartialEq)]
pub struct ScopeNode {
    /// Global, Master, Group or Region.
    pub kind: HeaderType,
    /// Index of the enclosing scope in the document's scope list; always
    /// smaller than this node's own index.
    pub parent: Option<usize>,
    /// This scope's own opcode set.
    pub own: Region,
}

/// The assembled instrument tree: the optional control record, the scope
/// nodes in document order, and the sibling curve and effect records.
#[derive(Debug, Clone, PartialEq)]
pub struct InstrumentDocument {
    pub control: Option<Control>,
    pub scopes: Vec<ScopeNode>,
    pub curves: Vec<Curve>,
    pub effects: Vec<Effect>,
}

/// Whether a header kind opens a scope of the inheritance chain.
pub open spec fn is_scope_tag(t: HeaderType) -> bool {
    t == HeaderType::Global || t == HeaderType::Master || t == HeaderType::Group || t
        == HeaderType::Region
}

/// The scope blocks of a document, in order.
pub open spec fn scope_blocks(blocks: Seq<GBlock>) -> Seq<GBlock> {
    blocks.filter(|b: GBlock| is_scope_tag(b.tag))
}

/// The curve blocks of a document, in order.
pub open spec fn curve_blocks(blocks: Seq<GBlock>) -> Seq<GBlock> {
    blocks.filter(|b: GBlock| b.tag == HeaderType::Curve)
}

/// The effect blocks of a document, in order.
pub open spec fn effect_blocks(blocks: Seq<GBlock>) -> Seq<GBlock> {
    blocks.filter(|b: GBlock| b.tag == HeaderType::Effect)
}

/// The ordering rules of the assembler's state machine: a control header
/// only first, and global headers only before any master, group or region
/// header.
pub open spec fn asm_ok(blocks: Seq<GBlock>) -> bool {
    &&& forall|i: int| 0 < i < blocks.len() ==> (#[trigger] blocks[i].tag) != HeaderType::Control
    &&& forall|i: int|
        0 <= i < blocks.len() ==> (#[trigger] blocks[i].tag) != HeaderType::Midi && blocks[i].tag
            != HeaderType::Sample
    &&& forall|i: int, j: int|
        0 <= i < j < blocks.len() && (#[trigger] blocks[j].tag) == HeaderType::Global ==> !(
        (#[trigger] blocks[i].tag) == HeaderType::Master || blocks[i].tag == HeaderType::Group
            || blocks[i].tag == HeaderType::Region)
}

/// Index of the last scope before `i` (exclusive) whose kind satisfies
/// the nearest-enclosing rule for kind `k`.
pub open spec fn encloses(child: HeaderType, parent: HeaderType) -> bool {
    if child == HeaderType::Master {
        parent == HeaderType::Global
    } else if child == HeaderType::Group {
        parent == HeaderType::Global || parent == HeaderType::Master
    } else if child == HeaderType::Region {
        parent == HeaderType::Global || parent == HeaderType::Master || parent == HeaderType::Group
    } else {
        false
    }
}

/// The parent of a scope of kind `child` opened after the scopes `tags`:
/// the nearest earlier scope whose kind may enclose it.
pub open spec fn parent_spec(tags: Seq<HeaderType>, child: HeaderType, i: int) -> Option<int>
    decreases i,
{
    if i <= 0 {
        None
    } else if encloses(child, tags[i - 1]) {
        Some(i - 1)
    } else {
        parent_spec(tags, child, i - 1)
    }
}

/// The kinds of the scope nodes, in order.
pub open spec fn scope_tags(blocks: Seq<GBlock>) -> Seq<HeaderType> {
    scope_blocks(blocks).map_values(|b: GBlock| b.tag)
}

/// The effect record as the specification sees it.
pub ghost struct GEffect {
    pub effect_type: Option<EffectType>,
    pub param_offset: u32,
    pub effect_one: Decimal,
    pub effect_two: Decimal,
    pub effect_three: Decimal,
    pub effect_four: Decimal,
    pub bus: BusOption,
    pub dsp_order: u8,
    pub params: Map<Seq<char>, Seq<char>>,
}

impl Effect {
    /// The record this effect structure denotes.
    pub open spec fn gview(&self) -> GEffect {
        GEffect {
            effect_type: self.effect_type,
            param_offset: self.param_offset,
            effect_one: self.effect_one,
            effect_two: self.effect_two,
            effect_three: self.effect_three,
            effect_four: self.effect_four,
            bus: self.bus,
            dsp_order: self.dsp_order,
            params: crate::region::param_view(self.parameters@),
        }
    }
}

/// The effect record before any opcode has been interpreted: zero gains
/// into the main bus.
pub open spec fn empty_geffect() -> GEffect {
    GEffect {
        effect_type: None,
        param_offset: 0,
        effect_one: zero_dec(),
        effect_two: zero_dec(),
        effect_three: zero_dec(),
        effect_four: zero_dec(),
        bus: BusOption::Main,
        dsp_order: 0,
        params: Map::empty(),
    }
}

/// The decimal zero.
pub open spec fn zero_dec() -> Decimal {
    Decimal { neg: false, mantissa: 0, scale: 0 }
}

/// Outcome of interpreting an effect block.
pub ghost enum EffOut {
    Done(GEffect),
    Range(Seq<char>, Seq<char>, int, int),
}

/// Folds the effect opcodes left to right into the record; unrecognized
/// keys are preserved as opaque pass-through entries.
pub open spec fn interp_effect(ops: Seq<GOp>, g: GEffect) -> EffOut
    decreases ops.len(),
{
    if ops.len() == 0 {
        EffOut::Done(g)
    } else {
        let op = ops[0];
        let rest = ops.drop_first();
        if op.key == "type"@ {
            match effect_type_spec(op.value) {
                Some(ty) => interp_effect(rest, GEffect { effect_type: Some(ty), ..g }),
                None => EffOut::Range(op.key, op.value, 0, 0),
            }
        } else if op.key == "param_offset"@ {
            match parse_int_spec(op.value) {
                Some(n) => if 0 <= n <= 4294967295 {
                    interp_effect(rest, GEffect { param_offset: n as u32, ..g })
                } else {
                    EffOut::Range(op.key, op.value, 0, 4294967295)
                },
                None => EffOut::Range(op.key, op.value, 0, 4294967295),
            }
        } else if op.key == "effect1"@ {
            match parse_dec_spec(op.value) {
                Some(d) => if d.in_range(0, 100) {
                    interp_effect(rest, GEffect { effect_one: d, ..g })
                } else {
                    EffOut::Range(op.key, op.value, 0, 100)
                },
                None => EffOut::Range(op.key, op.value, 0, 100),
            }
        } else if op.key == "effect2"@ {
            match parse_dec_spec(op.value) {
                Some(d) => if d.in_range(0, 100) {
                    interp_effect(rest, GEffect { effect_two: d, ..g })
                } else {
                    EffOut::Range(op.key, op.value, 0, 100)
                },
                None => EffOut::Range(op.key, op.value, 0, 100),
            }
        } else if op.key == "effect3"@ {
            match parse_dec_spec(op.value) {
                Some(d) => if d.in_range(0, 100) {
                    interp_effect(rest, GEffect { effect_three: d, ..g })
                } else {
                    EffOut::Range(op.key, op.value, 0, 100)
                },
                None => EffOut::Range(op.key, op.value, 0, 100),
            }
        } else if op.key == "effect4"@ {
            match parse_dec_spec(op.value) {
                Some(d) => if d.in_range(0, 100) {
                    interp_effect(rest, GEffect { effect_four: d, ..g })
                } else {
                    EffOut::Range(op.key, op.value, 0, 100)
                },
                None => EffOut::Range(op.key, op.value, 0, 100),
            }
        } else if op.key == "bus"@ {
            match bus_spec(op.value) {
                Some(b) => interp_effect(rest, GEffect { bus: b, ..g }),
                None => EffOut::Range(op.key, op.value, 0, 0),
            }
        } else if op.key == "dsp_order"@ {
            match parse_int_spec(op.value) {
                Some(n) => if 0 <= n <= 10 {
                    interp_effect(rest, GEffect { dsp_order: n as u8, ..g })
                } else {
                    EffOut::Range(op.key, op.value, 0, 10)
                },
                None => EffOut::Range(op.key, op.value, 0, 10),
            }
        } else {
            interp_effect(rest, GEffect { params: g.params.insert(op.key, op.value), ..g })
        }
    }
}

/// Interprets an `<effect>` header block.
#[verifier::rlimit(60)]
pub fn parse_effect(block: &HeaderBlock) -> (r: Result<Effect, SfzError>)
    ensures
        match r {
            Ok(e) => interp_effect(op_views(block.opcodes@), empty_geffect()) == EffOut::Done(
                e.gview(),
            ),
            Err(SfzError::OpcodeRangeViolation { key, value, lo, hi }) => interp_effect(
                op_views(block.opcodes@),
                empty_geffect(),
            ) == EffOut::Range(key@, value@, lo as int, hi as int),
            Err(e) => false,
        },
{
    let mut e = Effect {
        effect_type: None,
        param_offset: 0,
        effect_one: Decimal { neg: false, mantissa: 0, scale: 0 },
        effect_two: Decimal { neg: false, mantissa: 0, scale: 0 },
        effect_three: Decimal { neg: false, mantissa: 0, scale: 0 },
        effect_four: Decimal { neg: false, mantissa: 0, scale: 0 },
        bus: BusOption::Main,
        dsp_order: 0,
        parameters: CharMap::new(),
    };
    let n = block.opcodes.len();
    let mut i: usize = 0;
    proof {
        assert(e.gview().params =~= Map::<Seq<char>, Seq<char>>::empty());
        assert(op_views(block.opcodes@).skip(0) =~= op_views(block.opcodes@));
    }
    while i < n
        invariant
            0 <= i <= n,
            n == block.opcodes@.len(),
            interp_effect(op_views(block.opcodes@), empty_geffect()) == interp_effect(
                op_views(block.opcodes@).skip(i as int),
                e.gview(),
            ),
        decreases n - i,
    {
        let ghost rem = op_views(block.opcodes@).skip(i as int);
        let op = &block.opcodes[i];
        proof {
            assert(rem[0] == (GOp { key: op.key@, value: op.value@ }));
            assert(rem.drop_first() =~= op_views(block.opcodes@).skip(i as int + 1));
            reveal_strlit("type");
            reveal_strlit("param_offset");
            reveal_strlit("effect1");
            reveal_strlit("effect2");
            reveal_strlit("effect3");
            reveal_strlit("effect4");
            reveal_strlit("bus");
            reveal_strlit("dsp_order");
            assert("effect1"@[6] == '1');
            assert("effect2"@[6] == '2');
            assert("effect3"@[6] == '3');
            assert("effect4"@[6] == '4');
            assert(op.value@.subrange(0, op.value@.len() as int) =~= op.value@);
        }
        if crate::lexer::chars_eq_lit(&op.key, "type") {
            match parse_effect_type(&op.value) {
                Some(ty) => {
                    e.effect_type = Some(ty);
                },
                None => {
                    return Err(
                        SfzError::OpcodeRangeViolation {
                            key: clone_chars(&op.key),
                            value: clone_chars(&op.value),
                            lo: 0,
                            hi: 0,
                        },
                    );
                },
            }
        } else if crate::lexer::chars_eq_lit(&op.key, "param_offset") {
            match parse_int(&op.value, 0, op.value.len()) {
                Some(v) => {
                    if 0 <= v && v <= 4294967295 {
                        e.param_offset = v as u32;
                    } else {
                        return Err(
                            SfzError::OpcodeRangeViolation {
                                key: clone_chars(&op.key),
                                value: clone_chars(&op.value),
                                lo: 0,
                                hi: 4294967295,
                            },
                        );
                    }
                },
                None => {
                    return Err(
                        SfzError::OpcodeRangeViolation {
                            key: clone_chars(&op.key),
                            value: clone_chars(&op.value),
                            lo: 0,
                            hi: 4294967295,
                        },
                    );
                },
            }
        } else if crate::lexer::chars_eq_lit(&op.key, "effect1") {
            match parse_dec(&op.value, 0, op.value.len()) {
                Some(d) => {
                    if dec_in_range(&d, 0, 100) {
                        e.effect_one = d;
                    } else {
                        return Err(
                            SfzError::OpcodeRangeViolation {
                                key: clone_chars(&op.key),
                                value: clone_chars(&op.value),
                                lo: 0,
                                hi: 100,
                            },
                        );
                    }
                },
                None => {
                    return Err(
                        SfzError::OpcodeRangeViolation {
                            key: clone_chars(&op.key),
                            value: clone_chars(&op.value),
                            lo: 0,
                            hi: 100,
                        },
                    );
                },
            }
        } else if crate::lexer::chars_eq_lit(&op.key, "effect2") {
            match parse_dec(&op.value, 0, op.value.len()) {
                Some(d) => {
                    if dec_in_range(&d, 0, 100) {
                        e.effect_two = d;
                    } else {
                        return Err(
                            SfzError::OpcodeRangeViolation {
                                key: clone_chars(&op.key),
                                value: clone_chars(&op.value),
                                lo: 0,
                                hi: 100,
                            },
                        );
                    }
                },
                None => {
                    return Err(
                        SfzError::OpcodeRangeViolation {
                            key: clone_chars(&op.key),
                            value: clone_chars(&op.value),
                            lo: 0,
                            hi: 100,
                        },
                    );
                },
            }
        } else if crate::lexer::chars_eq_lit(&op.key, "effect3") {
            match parse_dec(&op.value, 0, op.value.len()) {
                Some(d) => {
                    if dec_in_range(&d, 0, 100) {
                        e.effect_three = d;
                    } else {
                        return Err(
                            SfzError::OpcodeRangeViolation {
                                key: clone_chars(&op.key),
                                value: clone_chars(&op.value),
                                lo: 0,
                                hi: 100,
                            },
                        );
                    }
                },
                None => {
                    return Err(
                        SfzError::OpcodeRangeViolation {
                            key: clone_chars(&op.key),
                            value: clone_chars(&op.value),
                            lo: 0,
                            hi: 100,
                        },
                    );
                },
            }
        } else if crate::lexer::chars_eq_lit(&op.key, "effect4") {
            match parse_dec(&op.value, 0, op.value.len()) {
                Some(d) => {
                    if dec_in_range(&d, 0, 100) {
                        e.effect_four = d;
                    } else {
                        return Err(
                            SfzError::OpcodeRangeViolation {
                                key: clone_chars(&op.key),
                                value: clone_chars(&op.value),
                                lo: 0,
                                hi: 100,
                            },
                        );
                    }
                },
                None => {
                    return Err(
                        SfzError::OpcodeRangeViolation {
                            key: clone_chars(&op.key),
                            value: clone_chars(&op.value),
                            lo: 0,
                            hi: 100,
                        },
                    );
                },
            }
        } else if crate::lexer::chars_eq_lit(&op.key, "bus") {
            match parse_bus(&op.value) {
                Some(b) => {
                    e.bus = b;
                },
                None => {
                    return Err(
                        SfzError::OpcodeRangeViolation {
                            key: clone_chars(&op.key),
                            value: clone_chars(&op.value),
                            lo: 0,
                            hi: 0,
                        },
                    );
                },
            }
        } else if crate::lexer::chars_eq_lit(&op.key, "dsp_order") {
            match parse_int(&op.value, 0, op.value.len()) {
                Some(v) => {
                    if 0 <= v && v <= 10 {
                        e.dsp_order = v as u8;
                    } else {
                        return Err(
                            SfzError::OpcodeRangeViolation {
                                key: clone_chars(&op.key),
                                value: clone_chars(&op.value),
                                lo: 0,
                                hi: 10,
                            },
                        );
                    }
                },
                None => {
                    return Err(
                        SfzError::OpcodeRangeViolation {
                            key: clone_chars(&op.key),
                            value: clone_chars(&op.value),
                            lo: 0,
                            hi: 10,
                        },
                    );
                },
            }
        } else {
            let ghost before = e.gview();
            let key = clone_chars(&op.key);
            let value = clone_chars(&op.value);
            e.parameters.insert(key, value);
            proof {
                assert(e.gview().params =~= before.params.insert(op.key@, op.value@));
                assert(e.gview() == (GEffect {
                    params: before.params.insert(op.key@, op.value@),
                    ..before
                }));
            }
        }
        i += 1;
    }
    proof {
        assert(op_views(block.opcodes@).skip(n as int) =~= Seq::<GOp>::empty());
    }
    Ok(e)
}

/// The curve record as the specification sees it.
pub ghost struct GCurve {
    pub index: u32,
    pub values: Seq<(Seq<char>, Decimal)>,
}

impl Curve {
    /// The record this curve structure denotes.
    pub open spec fn gview(&self) -> GCurve {
        GCurve {
            index: self.index,
            values: self.values@.map_values(|e: (Vec<char>, Decimal)| (e.0@, e.1)),
        }
    }
}

/// Outcome of interpreting a curve block.
pub ghost enum CrvOut {
    Done(GCurve),
    Range(Seq<char>, Seq<char>, int, int),
}

/// Folds the curve opcodes left to right: `curve_index` sets the index
/// (`0..=255`); every other key is a point whose value must be a decimal
/// in `-1..=1`.
pub open spec fn interp_curve(ops: Seq<GOp>, g: GCurve) -> CrvOut
    decreases ops.len(),
{
    if ops.len() == 0 {
        CrvOut::Done(g)
    } else {
        let op = ops[0];
        let rest = ops.drop_first();
        if op.key == "curve_index"@ {
            match parse_int_spec(op.value) {
                Some(n) => if 0 <= n <= 255 {
                    interp_curve(rest, GCurve { index: n as u32, ..g })
                } else {
                    CrvOut::Range(op.key, op.value, 0, 255)
                },
                None => CrvOut::Range(op.key, op.value, 0, 255),
            }
        } else {
            match parse_dec_spec(op.value) {
                Some(d) => if d.in_range(-1, 1) {
                    interp_curve(rest, GCurve { values: g.values.push((op.key, d)), ..g })
                } else {
                    CrvOut::Range(op.key, op.value, -1, 1)
                },
                None => CrvOut::Range(op.key, op.value, -1, 1),
            }
        }
    }
}

/// Interprets a `<curve>` header block.
pub fn parse_curve(block: &HeaderBlock) -> (r: Result<Curve, SfzError>)
    ensures
        match r {
            Ok(c) => interp_curve(
                op_views(block.opcodes@),
                GCurve { index: 0, values: Seq::empty() },
            ) == CrvOut::Done(c.gview()),
            Err(SfzError::OpcodeRangeViolation { key, value, lo, hi }) => interp_curve(
                op_views(block.opcodes@),
                GCurve { index: 0, values: Seq::empty() },
            ) == CrvOut::Range(key@, value@, lo as int, hi as int),
            Err(e) => false,
        },
{
    let mut c = Curve { index: 0, values: Vec::new() };
    let n = block.opcodes.len();
    let mut i: usize = 0;
    proof {
        assert(c.gview().values =~= Seq::<(Seq<char>, Decimal)>::empty());
        assert(op_views(block.opcodes@).skip(0) =~= op_views(block.opcodes@));
    }
    while i < n
        invariant
            0 <= i <= n,
            n == block.opcodes@.len(),
            interp_curve(
                op_views(block.opcodes@),
                GCurve { index: 0, values: Seq::empty() },
            ) == interp_curve(op_views(block.opcodes@).skip(i as int), c.gview()),
        decreases n - i,
    {
        let ghost rem = op_views(block.opcodes@).skip(i as int);
        let op = &block.opcodes[i];
        proof {
            assert(rem[0] == (GOp { key: op.key@, value: op.value@ }));
            assert(rem.drop_first() =~= op_views(block.opcodes@).skip(i as int + 1));
            reveal_strlit("curve_index");
            assert(op.value@.subrange(0, op.value@.len() as int) =~= op.value@);
        }
        if crate::lexer::chars_eq_lit(&op.key, "curve_index") {
            match parse_int(&op.value, 0, op.value.len()) {
                Some(v) => {
                    if 0 <= v && v <= 255 {
                        c.index = v as u32;
                    } else {
                        return Err(
                            SfzError::OpcodeRangeViolation {
                                key: clone_chars(&op.key),
                                value: clone_chars(&op.value),
                                lo: 0,
                                hi: 255,
                            },
                        );
                    }
                },
                None => {
                    return Err(
                        SfzError::OpcodeRangeViolation {
                            key: clone_chars(&op.key),
                            value: clone_chars(&op.value),
                            lo: 0,
                            hi: 255,
                        },
                    );
                },
            }
        } else {
            match parse_dec(&op.value, 0, op.value.len()) {
                Some(d) => {
                    if dec_in_range(&d, -1, 1) {
                        let ghost before = c.gview();
                        let key = clone_chars(&op.key);
                        c.values.push((key, d));
                        proof {
                            assert(c.gview().values =~= before.values.push((op.key@, d)));
                            assert(c.gview() == (GCurve {
                                values: before.values.push((op.key@, d)),
                                ..before
                            }));
                        }
                    } else {
                        return Err(
                            SfzError::OpcodeRangeViolation {
                                key: clone_chars(&op.key),
                                value: clone_chars(&op.value),
                                lo: -1,
                                hi: 1,
                            },
                        );
                    }
                },
                None => {
                    return Err(
                        SfzError::OpcodeRangeViolation {
                            key: clone_chars(&op.key),
                            value: clone_chars(&op.value),
                            lo: -1,
                            hi: 1,
                        },
                    );
                },
            }
        }
        i += 1;
    }
    proof {
        assert(op_views(block.opcodes@).skip(n as int) =~= Seq::<GOp>::empty());
    }
    Ok(c)
}

/// The kinds of a scope list, in order.
pub open spec fn kinds_of(s: Seq<ScopeNode>) -> Seq<HeaderType> {
    s.map_values(|n: ScopeNode| n.kind)
}

/// An index option, as the specification compares it.
pub open spec fn opt_idx(o: Option<usize>) -> Option<int> {
    match o {
        Some(p) => Some(p as int),
        None => None,
    }
}

impl InstrumentDocument {
    /// Every scope's parent stands earlier in the list.
    pub open spec fn wf(self) -> bool {
        forall|i: int|
            0 <= i < self.scopes@.len() ==> match (#[trigger] self.scopes@[i]).parent {
                Some(p) => 0 <= p < i,
                None => true,
            }
    }

    /// The effective opcode of scope `i` for `key`: its own value if
    /// present, else the nearest enclosing scope's effective value.
    pub open spec fn effective_spec(self, i: int, key: Seq<char>) -> Option<Opcode>
        decreases i,
            when self.wf() && 0 <= i < self.scopes@.len()
            via Self::effective_spec_dec
    {
        if self.scopes@[i].own.opcodes@.contains_key(key) {
            Some(self.scopes@[i].own.opcodes@[key])
        } else {
            match self.scopes@[i].parent {
                Some(p) => self.effective_spec(p as int, key),
                None => None,
            }
        }
    }

    #[via_fn]
    proof fn effective_spec_dec(self, i: int, key: Seq<char>) {
        assert(self.wf());
        assert(0 <= i < self.scopes@.len());
        match self.scopes@[i].parent {
            Some(p) => {
                assert(0 <= p < i);
            },
            None => {},
        }
    }

    /// Region-scope opcode lookup with inheritance: the scope's own value
    /// if present, else the nearest enclosing scope's.
    pub fn effective_opcode<'a>(&'a self, scope: usize, key: &Vec<char>) -> (r: Option<&'a Opcode>)
        requires
            self.wf(),
            scope < self.scopes@.len(),
        ensures
            match r {
                Some(v) => self.effective_spec(scope as int, key@) == Some(*v),
                None => self.effective_spec(scope as int, key@) is None,
            },
    {
        let mut cur = scope;
        loop
            invariant
                self.wf(),
                cur < self.scopes@.len(),
                self.effective_spec(scope as int, key@) == self.effective_spec(cur as int, key@),
            decreases cur,
        {
            match self.scopes[cur].own.opcodes.get(key) {
                Some(v) => {
                    return Some(v);
                },
                None => {
                    match self.scopes[cur].parent {
                        Some(p) => {
                            cur = p;
                        },
                        None => {
                            return None;
                        },
                    }
                },
            }
        }
    }
}

/// A scope's own value always wins over anything inherited.
pub proof fn lemma_own_value_wins(doc: InstrumentDocument, i: int, key: Seq<char>)
    requires
        doc.wf(),
        0 <= i < doc.scopes@.len(),
        doc.scopes@[i].own.opcodes@.contains_key(key),
    ensures
        doc.effective_spec(i, key) == Some(doc.scopes@[i].own.opcodes@[key]),
{
}

/// A key absent from a scope resolves exactly as in its enclosing scope.
pub proof fn lemma_inherited_from_enclosing(doc: InstrumentDocument, i: int, key: Seq<char>)
    requires
        doc.wf(),
        0 <= i < doc.scopes@.len(),
        !doc.scopes@[i].own.opcodes@.contains_key(key),
        doc.scopes@[i].parent matches Some(p),
    ensures
        doc.effective_spec(i, key) == doc.effective_spec(doc.scopes@[i].parent->0 as int, key),
{
}

/// Scope `j` is `i` itself or one of its enclosing scopes.
pub open spec fn reaches(doc: InstrumentDocument, i: int, j: int) -> bool
    decreases i,
        when doc.wf() && 0 <= i < doc.scopes@.len()
        via reaches_dec
{
    i == j || (match doc.scopes@[i].parent {
        Some(p) => reaches(doc, p as int, j),
        None => false,
    })
}

#[via_fn]
proof fn reaches_dec(doc: InstrumentDocument, i: int, j: int) {
    assert(doc.wf());
    assert(0 <= i < doc.scopes@.len());
    match doc.scopes@[i].parent {
        Some(p) => {
            assert(0 <= p < i);
        },
        None => {},
    }
}

/// No scope from `i` up to (but excluding) `j` holds `key` of its own.
pub open spec fn lacks_until(doc: InstrumentDocument, i: int, j: int, key: Seq<char>) -> bool
    decreases i,
        when doc.wf() && 0 <= i < doc.scopes@.len()
        via lacks_until_dec
{
    if i == j {
        true
    } else {
        !doc.scopes@[i].own.opcodes@.contains_key(key) && (match doc.scopes@[i].parent {
            Some(p) => lacks_until(doc, p as int, j, key),
            None => true,
        })
    }
}

#[via_fn]
proof fn lacks_until_dec(doc: InstrumentDocument, i: int, j: int, key: Seq<char>) {
    assert(doc.wf());
    assert(0 <= i < doc.scopes@.len());
    match doc.scopes@[i].parent {
        Some(p) => {
            assert(0 <= p < i);
        },
        None => {},
    }
}

/// The nearest-enclosing definition wins: when an enclosing scope `j`
/// holds `key` of its own and no scope between `i` and `j` does, the
/// effective value at `i` is `j`'s own value.  In particular a key absent
/// from a region but present in the enclosing global scope resolves to the
/// global value, and a definition at any intermediate scope shadows the
/// outer ones.
pub proof fn lemma_nearest_enclosing_wins(
    doc: InstrumentDocument,
    i: int,
    j: int,
    key: Seq<char>,
)
    requires
        doc.wf(),
        0 <= i < doc.scopes@.len(),
        0 <= j < doc.scopes@.len(),
        reaches(doc, i, j),
        lacks_until(doc, i, j, key),
        doc.scopes@[j].own.opcodes@.contains_key(key),
    ensures
        doc.effective_spec(i, key) == Some(doc.scopes@[j].own.opcodes@[key]),
    decreases i,
{
    if i == j {
    } else {
        assert(!doc.scopes@[i].own.opcodes@.contains_key(key));
        match doc.scopes@[i].parent {
            Some(p) => {
                assert(reaches(doc, p as int, j));
                lemma_nearest_enclosing_wins(doc, p as int, j, key);
            },
            None => {
                assert(!reaches(doc, i, j));
            },
        }
    }
}

/// What assembling a block list must yield, relative to the blocks.
pub open spec fn doc_matches(doc: InstrumentDocument, blocks: Seq<GBlock>) -> bool {
    let sb = scope_blocks(blocks);
    let cb = curve_blocks(blocks);
    let eb = effect_blocks(blocks);
    &&& doc.scopes@.len() == sb.len()
    &&& forall|i: int|
        0 <= i < sb.len() ==> (#[trigger] doc.scopes@[i]).kind == sb[i].tag && region_matches(
            doc.scopes@[i].own,
            sb[i].ops,
        ) && opt_idx(doc.scopes@[i].parent) == parent_spec(scope_tags(blocks), sb[i].tag, i)
    &&& match doc.control {
        Some(c) => blocks.len() > 0 && blocks[0].tag == HeaderType::Control && interp_control(
            blocks[0].ops,
            empty_gcontrol(),
        ) == CtlOut::Done(c.gview()),
        None => blocks.len() == 0 || blocks[0].tag != HeaderType::Control,
    }
    &&& doc.curves@.len() == cb.len()
    &&& forall|i: int|
        0 <= i < cb.len() ==> interp_curve(
            (#[trigger] cb[i]).ops,
            GCurve { index: 0, values: Seq::empty() },
        ) == CrvOut::Done(doc.curves@[i].gview())
    &&& doc.effects@.len() == eb.len()
    &&& forall|i: int|
        0 <= i < eb.len() ==> interp_effect((#[trigger] eb[i]).ops, empty_geffect())
            == EffOut::Done(doc.effects@[i].gview())
}

/// The control record's preprocessor-fed fields are still empty, as
/// assembly leaves them: the caller merges the macro table and inclusion
/// list in afterwards.
pub open spec fn control_unmerged(doc: InstrumentDocument) -> bool {
    match doc.control {
        Some(c) => c.define_directives@ == Map::<Seq<char>, Seq<char>>::empty()
            && crate::preprocess::views_of(c.include_directives@) == Seq::<Seq<char>>::empty(),
        None => true,
    }
}

/// When assembly succeeds: the ordering rules hold, the control block (if
/// first) interprets cleanly, every scope block classifies without a
/// range violation, and every curve and effect block interprets cleanly.
pub open spec fn assemble_ok(blocks: Seq<GBlock>) -> bool {
    &&& asm_ok(blocks)
    &&& (blocks.len() > 0 && blocks[0].tag == HeaderType::Control ==> interp_control(
        blocks[0].ops,
        empty_gcontrol(),
    ) is Done)
    &&& forall|i: int|
        0 <= i < scope_blocks(blocks).len() ==> bad_ops(
            (#[trigger] scope_blocks(blocks)[i]).ops,
        ).len() == 0
    &&& forall|i: int|
        0 <= i < curve_blocks(blocks).len() ==> interp_curve(
            (#[trigger] curve_blocks(blocks)[i]).ops,
            GCurve { index: 0, values: Seq::empty() },
        ) is Done
    &&& forall|i: int|
        0 <= i < effect_blocks(blocks).len() ==> interp_effect(
            (#[trigger] effect_blocks(blocks)[i]).ops,
            empty_geffect(),
        ) is Done
}

/// Whether `kind` may enclose scopes below it.
pub fn encloses_exec(child: HeaderType, parent: HeaderType) -> (r: bool)
    ensures
        r == encloses(child, parent),
{
    match child {
        HeaderType::Master => parent == HeaderType::Global,
        HeaderType::Group => parent == HeaderType::Global || parent == HeaderType::Master,
        HeaderType::Region => parent == HeaderType::Global || parent == HeaderType::Master
            || parent == HeaderType::Group,
        _ => false,
    }
}

/// Finds the nearest already-built scope that may enclose a new scope of
/// kind `kind`.
fn find_parent(scopes: &Vec<ScopeNode>, kind: HeaderType) -> (r: Option<usize>)
    ensures
        opt_idx(r) == parent_spec(kinds_of(scopes@), kind, scopes@.len() as int),
{
    let mut j = scopes.len();
    while j > 0
        invariant
            0 <= j <= scopes@.len(),
            parent_spec(kinds_of(scopes@), kind, scopes@.len() as int) == parent_spec(
                kinds_of(scopes@),
                kind,
                j as int,
            ),
        decreases j,
    {
        if encloses_exec(kind, scopes[j - 1].kind) {
            proof {
                assert(kinds_of(scopes@)[j - 1] == scopes@[j - 1].kind);
            }
            return Some(j - 1);
        }
        proof {
            assert(kinds_of(scopes@)[j - 1] == scopes@[j - 1].kind);
        }
        j -= 1;
    }
    None
}

/// Whether any built scope is a master, group or region.
fn has_mgr(scopes: &Vec<ScopeNode>) -> (r: bool)
    ensures
        r == exists|i: int|
            0 <= i < scopes@.len() && ((#[trigger] scopes@[i]).kind == HeaderType::Master
                || scopes@[i].kind == HeaderType::Group || scopes@[i].kind == HeaderType::Region),
{
    let mut i: usize = 0;
    while i < scopes.len()
        invariant
            0 <= i <= scopes@.len(),
            forall|m: int|
                0 <= m < i ==> !((#[trigger] scopes@[m]).kind == HeaderType::Master
                    || scopes@[m].kind == HeaderType::Group || scopes@[m].kind
                    == HeaderType::Region),
        decreases scopes@.len() - i,
    {
        let k = scopes[i].kind;
        if k == HeaderType::Master || k == HeaderType::Group || k == HeaderType::Region {
            return true;
        }
        i += 1;
    }
    false
}

/// An element of a filtered list stands somewhere in the source list.
proof fn lemma_filter_elem_in(blocks: Seq<GBlock>, pred: spec_fn(GBlock) -> bool, j: int)
    requires
        0 <= j < blocks.filter(pred).len(),
    ensures
        blocks.contains(blocks.filter(pred)[j]),
    decreases blocks.len(),
{
    reveal(Seq::filter);
    if blocks.len() > 0 {
        let fd = blocks.drop_last().filter(pred);
        if pred(blocks.last()) && j == fd.len() {
            assert(blocks.filter(pred)[j] == blocks.last());
            assert(blocks[blocks.len() - 1] == blocks.last());
        } else {
            lemma_filter_elem_in(blocks.drop_last(), pred, j);
            let i = choose|i: int|
                0 <= i < blocks.drop_last().len() && blocks.drop_last()[i] == blocks.drop_last(
                ).filter(pred)[j];
            assert(blocks[i] == blocks.drop_last()[i]);
        }
    }
}

/// A filtered prefix is a prefix of the filtered whole.
proof fn lemma_filter_take_prefix(blocks: Seq<GBlock>, m: int, pred: spec_fn(GBlock) -> bool)
    requires
        0 <= m <= blocks.len(),
    ensures
        blocks.take(m).filter(pred).len() <= blocks.filter(pred).len(),
        forall|k: int|
            0 <= k < blocks.take(m).filter(pred).len() ==> #[trigger] blocks.take(m).filter(
                pred,
            )[k] == blocks.filter(pred)[k],
    decreases blocks.len(),
{
    reveal(Seq::filter);
    if m == blocks.len() {
        assert(blocks.take(m) =~= blocks);
    } else {
        lemma_filter_take_prefix(blocks.drop_last(), m, pred);
        assert(blocks.drop_last().take(m) =~= blocks.take(m));
        let f = blocks.filter(pred);
        let fd = blocks.drop_last().filter(pred);
        assert(f == if pred(blocks.last()) {
            fd.push(blocks.last())
        } else {
            fd
        });
    }
}

/// The nearest-enclosing parent depends only on the scopes before `i`.
proof fn lemma_parent_spec_prefix(
    t1: Seq<HeaderType>,
    t2: Seq<HeaderType>,
    child: HeaderType,
    i: int,
)
    requires
        forall|m: int| 0 <= m < i ==> t1[m] == t2[m],
    ensures
        parent_spec(t1, child, i) == parent_spec(t2, child, i),
    decreases i,
{
    if i > 0 {
        lemma_parent_spec_prefix(t1, t2, child, i - 1);
    }
}

/// A found parent index lies before the child.
proof fn lemma_parent_spec_bounds(tags: Seq<HeaderType>, child: HeaderType, i: int)
    ensures
        match parent_spec(tags, child, i) {
            Some(q) => 0 <= q < i,
            None => true,
        },
    decreases i,
{
    if i > 0 {
        lemma_parent_spec_bounds(tags, child, i - 1);
    }
}

/// Walks the ordered header blocks and builds the instrument tree.
/// Succeeds exactly when the ordering rules hold and every block
/// interprets cleanly; the first offending block aborts the assembly.
#[verifier::rlimit(100)]
pub fn assemble(blocks: &Vec<HeaderBlock>) -> (r: Result<InstrumentDocument, SfzError>)
    ensures
        match r {
            Ok(doc) => doc.wf() && doc_matches(doc, block_views(blocks@)) && assemble_ok(
                block_views(blocks@),
            ) && control_unmerged(doc),
            Err(e) => !assemble_ok(block_views(blocks@)) && match e {
                SfzError::InvalidNesting { pos } => true,
                SfzError::UnrecognizedControlKey { key } => true,
                SfzError::OpcodeRangeViolation { key, value, lo, hi } => true,
                _ => false,
            },
        },
{
    broadcast use vstd::seq_lib::group_filter_ensures;

    let ghost gb = block_views(blocks@);
    let mut doc = InstrumentDocument {
        control: None,
        scopes: Vec::new(),
        curves: Vec::new(),
        effects: Vec::new(),
    };
    let n = blocks.len();
    let mut bi: usize = 0;
    proof {
        reveal(Seq::filter);
        assert(gb.take(0) =~= Seq::<GBlock>::empty());
        assert(kinds_of(doc.scopes@) =~= scope_tags(gb.take(0)));
    }
    while bi < n
        invariant
            0 <= bi <= n,
            n == blocks@.len(),
            gb == block_views(blocks@),
            gb.len() == n,
            doc.wf(),
            doc_matches(doc, gb.take(bi as int)),
            control_unmerged(doc),
            assemble_ok(gb.take(bi as int)),
            kinds_of(doc.scopes@) =~= scope_tags(gb.take(bi as int)),
        decreases n - bi,
    {
        let b = &blocks[bi];
        let ghost gbv = gb[bi as int];
        let ghost prefix = gb.take(bi as int);
        let ghost prefix1 = gb.take(bi as int + 1);
        proof {
            reveal(Seq::filter);
            assert(gbv == (GBlock { tag: b.tag, ops: op_views(b.opcodes@) }));
            assert(prefix1.drop_last() =~= prefix);
            assert(prefix1.last() == gbv);
            assert(scope_blocks(prefix1) == if is_scope_tag(gbv.tag) {
                scope_blocks(prefix).push(gbv)
            } else {
                scope_blocks(prefix)
            });
            assert(curve_blocks(prefix1) == if gbv.tag == HeaderType::Curve {
                curve_blocks(prefix).push(gbv)
            } else {
                curve_blocks(prefix)
            });
            assert(effect_blocks(prefix1) == if gbv.tag == HeaderType::Effect {
                effect_blocks(prefix).push(gbv)
            } else {
                effect_blocks(prefix)
            });
        }
        match b.tag {
            HeaderType::Control => {
                if bi != 0 {
                    proof {
                        assert(gb[bi as int].tag == HeaderType::Control);
                        assert(!asm_ok(gb));
                    }
                    return Err(SfzError::InvalidNesting { pos: b.pos });
                }
                match parse_control(b) {
                    Ok(c) => {
                        doc.control = Some(c);
                        proof {
                            assert(scope_tags(prefix1) =~= scope_tags(prefix));
                        }
                    },
                    Err(e) => {
                        proof {
                            assert(gb[0].tag == HeaderType::Control);
                            assert(!(interp_control(gb[0].ops, empty_gcontrol()) is Done));
                        }
                        return Err(e);
                    },
                }
            },
            HeaderType::Curve => {
                match parse_curve(b) {
                    Ok(c) => {
                        doc.curves.push(c);
                        proof {
                            assert(scope_tags(prefix1) =~= scope_tags(prefix));
                        }
                    },
                    Err(e) => {
                        proof {
                            let k = curve_blocks(prefix).len() as int;
                            lemma_filter_take_prefix(
                                gb,
                                bi as int + 1,
                                |x: GBlock| x.tag == HeaderType::Curve,
                            );
                            assert(curve_blocks(prefix1)[k] == gbv);
                            assert(curve_blocks(gb)[k] == gbv);
                            assert(!assemble_ok(gb));
                        }
                        return Err(e);
                    },
                }
            },
            HeaderType::Effect => {
                match parse_effect(b) {
                    Ok(c) => {
                        doc.effects.push(c);
                        proof {
                            assert(scope_tags(prefix1) =~= scope_tags(prefix));
                        }
                    },
                    Err(e) => {
                        proof {
                            let k = effect_blocks(prefix).len() as int;
                            lemma_filter_take_prefix(
                                gb,
                                bi as int + 1,
                                |x: GBlock| x.tag == HeaderType::Effect,
                            );
                            assert(effect_blocks(prefix1)[k] == gbv);
                            assert(effect_blocks(gb)[k] == gbv);
                            assert(!assemble_ok(gb));
                        }
                        return Err(e);
                    },
                }
            },
            HeaderType::Midi => {
                proof {
                    assert(gb[bi as int].tag == HeaderType::Midi);
                }
                return Err(SfzError::InvalidNesting { pos: b.pos });
            },
            HeaderType::Sample => {
                proof {
                    assert(gb[bi as int].tag == HeaderType::Sample);
                }
                return Err(SfzError::InvalidNesting { pos: b.pos });
            },
            _ => {
                // a scope header: Global, Master, Group or Region
                let tag = b.tag;
                if tag == HeaderType::Global {
                    if has_mgr(&doc.scopes) {
                        proof {
                            let j = choose|j: int|
                                0 <= j < doc.scopes@.len() && ((#[trigger] doc.scopes@[j]).kind
                                    == HeaderType::Master || doc.scopes@[j].kind
                                    == HeaderType::Group || doc.scopes@[j].kind
                                    == HeaderType::Region);
                            assert(kinds_of(doc.scopes@)[j] == doc.scopes@[j].kind);
                            assert(scope_blocks(prefix)[j].tag == doc.scopes@[j].kind);
                            lemma_filter_elem_in(prefix, |x: GBlock| is_scope_tag(x.tag), j);
                            assert(prefix.contains(scope_blocks(prefix)[j]));
                            let i0 = choose|i0: int|
                                0 <= i0 < prefix.len() && prefix[i0] == scope_blocks(prefix)[j];
                            assert(gb[i0] == prefix[i0]);
                            assert(gb[bi as int].tag == HeaderType::Global);
                            assert(!asm_ok(gb));
                        }
                        return Err(SfzError::InvalidNesting { pos: b.pos });
                    }
                }
                let (region, mut errs) = classify_block(b);
                if errs.len() > 0 {
                    let e = errs.remove(0);
                    proof {
                        let k = scope_blocks(prefix).len() as int;
                        lemma_filter_take_prefix(
                            gb,
                            bi as int + 1,
                            |x: GBlock| is_scope_tag(x.tag),
                        );
                        assert(scope_blocks(prefix1)[k] == gbv);
                        assert(scope_blocks(gb)[k] == gbv);
                        assert(bad_ops(gbv.ops).len() > 0);
                        assert(!assemble_ok(gb));
                    }
                    return Err(e);
                }
                let parent = find_parent(&doc.scopes, tag);
                let ghost old_scopes = doc.scopes@;
                doc.scopes.push(ScopeNode { kind: tag, parent, own: region });
                proof {
                    let k = old_scopes.len();
                    assert(doc.scopes@.drop_last() =~= old_scopes);
                    assert(scope_tags(prefix1) =~= scope_tags(prefix).push(tag));
                    assert(kinds_of(doc.scopes@) =~= scope_tags(prefix1));
                    lemma_parent_spec_bounds(kinds_of(old_scopes), tag, k as int);
                    // the parent rule is stable under extending the block list
                    assert forall|i: int| 0 <= i < scope_blocks(prefix1).len() implies opt_idx(
                        (#[trigger] doc.scopes@[i]).parent,
                    ) == parent_spec(scope_tags(prefix1), scope_blocks(prefix1)[i].tag, i) by {
                        if i < k {
                            assert(doc.scopes@[i] == old_scopes[i]);
                            assert(scope_blocks(prefix1)[i] == scope_blocks(prefix)[i]);
                            lemma_parent_spec_prefix(
                                scope_tags(prefix),
                                scope_tags(prefix1),
                                scope_blocks(prefix)[i].tag,
                                i,
                            );
                        } else {
                            assert(scope_blocks(prefix1)[k as int] == gbv);
                            lemma_parent_spec_prefix(
                                kinds_of(old_scopes),
                                scope_tags(prefix1),
                                tag,
                                k as int,
                            );
                        }
                    }
                    // nesting stays valid: a global scope is pushed only
                    // while no master, group or region scope exists
                    assert(asm_ok(prefix1)) by {
                        assert forall|i: int, j: int|
                            0 <= i < j < prefix1.len() && (#[trigger] prefix1[j].tag)
                                == HeaderType::Global implies !((#[trigger] prefix1[i].tag)
                            == HeaderType::Master || prefix1[i].tag == HeaderType::Group
                            || prefix1[i].tag == HeaderType::Region) by {
                            if j < bi {
                                assert(prefix[i].tag == prefix1[i].tag);
                                assert(prefix[j].tag == prefix1[j].tag);
                            } else {
                                // j == bi: the new block is a global scope
                                if prefix1[i].tag == HeaderType::Master || prefix1[i].tag
                                    == HeaderType::Group || prefix1[i].tag == HeaderType::Region {
                                    assert(prefix.contains(prefix[i]));
                                    assert(is_scope_tag(prefix[i].tag));
                                    assert(scope_blocks(prefix).contains(prefix[i]));
                                    let jj = choose|jj: int|
                                        0 <= jj < scope_blocks(prefix).len() && scope_blocks(
                                            prefix,
                                        )[jj] == prefix[i];
                                    assert(kinds_of(old_scopes)[jj] == scope_blocks(
                                        prefix,
                                    )[jj].tag);
                                    assert(old_scopes[jj].kind == prefix[i].tag);
                                }
                            }
                        }
                    };
                }
            },
        }
        bi += 1;
        proof {
            assert(gb.take(bi as int) == prefix1);
        }
    }
    proof {
        assert(gb.take(n as int) =~= gb);
    }
    Ok(doc)
}

/// The inadmissible pairs of all scope blocks, in document order.
pub open spec fn scope_bads(blocks: Seq<GBlock>) -> Seq<GOp>
    decreases blocks.len(),
{
    if blocks.len() == 0 {
        Seq::empty()
    } else if is_scope_tag(blocks.last().tag) {
        scope_bads(blocks.drop_last()) + bad_ops(blocks.last().ops)
    } else {
        scope_bads(blocks.drop_last())
    }
}

/// When lenient assembly succeeds: as [`assemble_ok`], but a scope block
/// may carry range violations, which are collected instead of aborting.
pub open spec fn assemble_lenient_ok(blocks: Seq<GBlock>) -> bool {
    &&& asm_ok(blocks)
    &&& (blocks.len() > 0 && blocks[0].tag == HeaderType::Control ==> interp_control(
        blocks[0].ops,
        empty_gcontrol(),
    ) is Done)
    &&& forall|i: int|
        0 <= i < curve_blocks(blocks).len() ==> interp_curve(
            (#[trigger] curve_blocks(blocks)[i]).ops,
            GCurve { index: 0, values: Seq::empty() },
        ) is Done
    &&& forall|i: int|
        0 <= i < effect_blocks(blocks).len() ==> interp_effect(
            (#[trigger] effect_blocks(blocks)[i]).ops,
            empty_geffect(),
        ) is Done
}

/// The accumulate-and-continue assembler: like [`assemble`], but a range
/// violation inside a scope block is collected and the offending opcode
/// skipped, so a best-effort document comes back beside the error list.
/// Ordering, control, curve and effect errors stay fatal.
#[verifier::rlimit(100)]
pub fn assemble_lenient(blocks: &Vec<HeaderBlock>) -> (r: Result<
    (InstrumentDocument, Vec<SfzError>),
    SfzError,
>)
    ensures
        match r {
            Ok((doc, errs)) => doc.wf() && doc_matches(doc, block_views(blocks@))
                && assemble_lenient_ok(block_views(blocks@)) && crate::region::errs_match(
                errs@,
                scope_bads(block_views(blocks@)),
            ) && control_unmerged(doc),
            Err(e) => !assemble_lenient_ok(block_views(blocks@)) && match e {
                SfzError::InvalidNesting { pos } => true,
                SfzError::UnrecognizedControlKey { key } => true,
                SfzError::OpcodeRangeViolation { key, value, lo, hi } => true,
                _ => false,
            },
        },
{
    broadcast use vstd::seq_lib::group_filter_ensures;

    let ghost gb = block_views(blocks@);
    let mut doc = InstrumentDocument {
        control: None,
        scopes: Vec::new(),
        curves: Vec::new(),
        effects: Vec::new(),
    };
    let mut errs: Vec<SfzError> = Vec::new();
    let n = blocks.len();
    let mut bi: usize = 0;
    proof {
        reveal(Seq::filter);
        assert(gb.take(0) =~= Seq::<GBlock>::empty());
        assert(kinds_of(doc.scopes@) =~= scope_tags(gb.take(0)));
    }
    while bi < n
        invariant
            0 <= bi <= n,
            n == blocks@.len(),
            gb == block_views(blocks@),
            gb.len() == n,
            doc.wf(),
            doc_matches(doc, gb.take(bi as int)),
            control_unmerged(doc),
            assemble_lenient_ok(gb.take(bi as int)),
            crate::region::errs_match(errs@, scope_bads(gb.take(bi as int))),
            kinds_of(doc.scopes@) =~= scope_tags(gb.take(bi as int)),
        decreases n - bi,
    {
        let b = &blocks[bi];
        let ghost gbv = gb[bi as int];
        let ghost prefix = gb.take(bi as int);
        let ghost prefix1 = gb.take(bi as int + 1);
        proof {
            reveal(Seq::filter);
            assert(gbv == (GBlock { tag: b.tag, ops: op_views(b.opcodes@) }));
            assert(prefix1.drop_last() =~= prefix);
            assert(prefix1.last() == gbv);
            assert(scope_blocks(prefix1) == if is_scope_tag(gbv.tag) {
                scope_blocks(prefix).push(gbv)
            } else {
                scope_blocks(prefix)
            });
            assert(curve_blocks(prefix1) == if gbv.tag == HeaderType::Curve {
                curve_blocks(prefix).push(gbv)
            } else {
                curve_blocks(prefix)
            });
            assert(effect_blocks(prefix1) == if gbv.tag == HeaderType::Effect {
                effect_blocks(prefix).push(gbv)
            } else {
                effect_blocks(prefix)
            });
            assert(scope_bads(prefix1) == if is_scope_tag(gbv.tag) {
                scope_bads(prefix) + bad_ops(gbv.ops)
            } else {
                scope_bads(prefix)
            });
        }
        match b.tag {
            HeaderType::Control => {
                if bi != 0 {
                    proof {
                        assert(gb[bi as int].tag == HeaderType::Control);
                        assert(!asm_ok(gb));
                    }
                    return Err(SfzError::InvalidNesting { pos: b.pos });
                }
                match parse_control(b) {
                    Ok(c) => {
                        doc.control = Some(c);
                        proof {
                            assert(scope_tags(prefix1) =~= scope_tags(prefix));
                        }
                    },
                    Err(e) => {
                        proof {
                            assert(gb[0].tag == HeaderType::Control);
                            assert(!(interp_control(gb[0].ops, empty_gcontrol()) is Done));
                        }
                        return Err(e);
                    },
                }
            },
            HeaderType::Curve => {
                match parse_curve(b) {
                    Ok(c) => {
                        doc.curves.push(c);
                        proof {
                            assert(scope_tags(prefix1) =~= scope_tags(prefix));
                        }
                    },
                    Err(e) => {
                        proof {
                            let k = curve_blocks(prefix).len() as int;
                            lemma_filter_take_prefix(
                                gb,
                                bi as int + 1,
                                |x: GBlock| x.tag == HeaderType::Curve,
                            );
                            assert(curve_blocks(prefix1)[k] == gbv);
                            assert(curve_blocks(gb)[k] == gbv);
                            assert(!assemble_lenient_ok(gb));
                        }
                        return Err(e);
                    },
                }
            },
            HeaderType::Effect => {
                match parse_effect(b) {
                    Ok(c) => {
                        doc.effects.push(c);
                        proof {
                            assert(scope_tags(prefix1) =~= scope_tags(prefix));
                        }
                    },
                    Err(e) => {
                        proof {
                            let k = effect_blocks(prefix).len() as int;
                            lemma_filter_take_prefix(
                                gb,
                                bi as int + 1,
                                |x: GBlock| x.tag == HeaderType::Effect,
                            );
                            assert(effect_blocks(prefix1)[k] == gbv);
                            assert(effect_blocks(gb)[k] == gbv);
                            assert(!assemble_lenient_ok(gb));
                        }
                        return Err(e);
                    },
                }
            },
            HeaderType::Midi => {
                proof {
                    assert(gb[bi as int].tag == HeaderType::Midi);
                }
                return Err(SfzError::InvalidNesting { pos: b.pos });
            },
            HeaderType::Sample => {
                proof {
                    assert(gb[bi as int].tag == HeaderType::Sample);
                }
                return Err(SfzError::InvalidNesting { pos: b.pos });
            },
            _ => {
                let tag = b.tag;
                if tag == HeaderType::Global {
                    if has_mgr(&doc.scopes) {
                        proof {
                            let j = choose|j: int|
                                0 <= j < doc.scopes@.len() && ((#[trigger] doc.scopes@[j]).kind
                                    == HeaderType::Master || doc.scopes@[j].kind
                                    == HeaderType::Group || doc.scopes@[j].kind
                                    == HeaderType::Region);
                            assert(kinds_of(doc.scopes@)[j] == doc.scopes@[j].kind);
                            assert(scope_blocks(prefix)[j].tag == doc.scopes@[j].kind);
                            lemma_filter_elem_in(prefix, |x: GBlock| is_scope_tag(x.tag), j);
                            assert(prefix.contains(scope_blocks(prefix)[j]));
                            let i0 = choose|i0: int|
                                0 <= i0 < prefix.len() && prefix[i0] == scope_blocks(prefix)[j];
                            assert(gb[i0] == prefix[i0]);
                            assert(gb[bi as int].tag == HeaderType::Global);
                            assert(!asm_ok(gb));
                        }
                        return Err(SfzError::InvalidNesting { pos: b.pos });
                    }
                }
                let (region, mut block_errs) = classify_block(b);
                let ghost prev_errs = errs@;
                let ghost new_errs = block_errs@;
                errs.append(&mut block_errs);
                proof {
                    crate::region::lemma_errs_match_concat(
                        prev_errs,
                        scope_bads(prefix),
                        new_errs,
                        bad_ops(gbv.ops),
                    );
                }
                let parent = find_parent(&doc.scopes, tag);
                let ghost old_scopes = doc.scopes@;
                doc.scopes.push(ScopeNode { kind: tag, parent, own: region });
                proof {
                    let k = old_scopes.len();
                    assert(doc.scopes@.drop_last() =~= old_scopes);
                    assert(scope_tags(prefix1) =~= scope_tags(prefix).push(tag));
                    assert(kinds_of(doc.scopes@) =~= scope_tags(prefix1));
                    lemma_parent_spec_bounds(kinds_of(old_scopes), tag, k as int);
                    assert forall|i: int| 0 <= i < scope_blocks(prefix1).len() implies opt_idx(
                        (#[trigger] doc.scopes@[i]).parent,
                    ) == parent_spec(scope_tags(prefix1), scope_blocks(prefix1)[i].tag, i) by {
                        if i < k {
                            assert(doc.scopes@[i] == old_scopes[i]);
                            assert(scope_blocks(prefix1)[i] == scope_blocks(prefix)[i]);
                            lemma_parent_spec_prefix(
                                scope_tags(prefix),
                                scope_tags(prefix1),
                                scope_blocks(prefix)[i].tag,
                                i,
                            );
                        } else {
                            assert(scope_blocks(prefix1)[k as int] == gbv);
                            lemma_parent_spec_prefix(
                                kinds_of(old_scopes),
                                scope_tags(prefix1),
                                tag,
                                k as int,
                            );
                        }
                    }
                    assert(asm_ok(prefix1)) by {
                        assert forall|i: int, j: int|
                            0 <= i < j < prefix1.len() && (#[trigger] prefix1[j].tag)
                                == HeaderType::Global implies !((#[trigger] prefix1[i].tag)
                            == HeaderType::Master || prefix1[i].tag == HeaderType::Group
                            || prefix1[i].tag == HeaderType::Region) by {
                            if j < bi {
                                assert(prefix[i].tag == prefix1[i].tag);
                                assert(prefix[j].tag == prefix1[j].tag);
                            } else {
                                if prefix1[i].tag == HeaderType::Master || prefix1[i].tag
                                    == HeaderType::Group || prefix1[i].tag == HeaderType::Region {
                                    assert(prefix.contains(prefix[i]));
                                    assert(is_scope_tag(prefix[i].tag));
                                    assert(scope_blocks(prefix).contains(prefix[i]));
                                    let jj = choose|jj: int|
                                        0 <= jj < scope_blocks(prefix).len() && scope_blocks(
                                            prefix,
                                        )[jj] == prefix[i];
                                    assert(kinds_of(old_scopes)[jj] == scope_blocks(
                                        prefix,
                                    )[jj].tag);
                                    assert(old_scopes[jj].kind == prefix[i].tag);
                                }
                            }
                        }
                    };
                }
            },
        }
        bi += 1;
        proof {
            assert(gb.take(bi as int) == prefix1);
        }
    }
    proof {
        assert(gb.take(n as int) =~= gb);
    }
    Ok((doc, errs))
}

} // verus!
