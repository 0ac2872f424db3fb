//! The control-header interpreter: turns the first header block, when it
//! is a control block, into a structured control record.  The control
//! grammar is closed: a key outside it is a hard error.  A CC label value
//! is split on whitespace into a primary label and an optional modulation
//! qualifier; later entries for the same controller index win.

use vstd::prelude::*;
use crate::lexer::{skip_spaces_spec, space_char, white_space};
use crate::numbers::{parse_int, parse_int_spec, parse_uint, parse_uint_spec};
use crate::preprocess::{clone_chars, views_of, DefineDirective, MacroTable};
use crate::table::CcMap;
use crate::tokenizer::{op_views, GOp, HeaderBlock, HeaderType};
use crate::SfzError;

verus! {

/// The structured control record: default sample root, note and octave
/// offsets, CC labels and CC defaults, the macro definitions captured
/// during preprocessing, and the resolved inclusion targets in encounter
/// order.
#[derive(Debug, Clone, PartialEq)]
pub struct Control {
    /// The header kind this record was interpreted from.
    pub header_type: HeaderType,
    /// Macro bindings captured from `#define` directives.
    pub define_directives: MacroTable,
    /// Default sample-root path, stored verbatim; a later control header
    /// replaces it outright.
    pub default_path: Vec<char>,
    /// Note offset in semitones, `-127..=127`.
    pub note_offset: i32,
    /// Octave offset, `-10..=10`.
    pub octave_offset: i32,
    /// CC index to primary label and optional modulation qualifier.
    pub label_ccn: CcMap<(Vec<char>, Option<Vec<char>>)>,
    /// CC index to default value, `0..=127`.
    pub set_ccn: CcMap<u8>,
    /// Resolved inclusion targets in encounter order.
    pub include_directives: Vec<Vec<char>>,
}

/// A CC label binding as the specification sees it.
pub type GLabel = (Seq<char>, Option<Seq<char>>);

/// The control record as the specification sees it.
pub ghost struct GControl {
    pub default_path: Seq<char>,
    pub note_offset: int,
    pub octave_offset: int,
    pub labels: Map<u32, GLabel>,
    pub sets: Map<u32, u8>,
}

/// The label map a `CcMap` of label pairs denotes.
pub open spec fn label_view(m: Map<u32, (Vec<char>, Option<Vec<char>>)>) -> Map<u32, GLabel> {
    Map::new(
        |n: u32| m.contains_key(n),
        |n: u32|
            (m[n].0@, match m[n].1 {
                Some(v) => Some(v@),
                None => None,
            }),
    )
}

impl Control {
    /// The record this control structure denotes.
    pub open spec fn gview(&self) -> GControl {
        GControl {
            default_path: self.default_path@,
            note_offset: self.note_offset as int,
            octave_offset: self.octave_offset as int,
            labels: label_view(self.label_ccn@),
            sets: self.set_ccn@,
        }
    }

    /// The header tag this record was interpreted from.
    pub open spec fn is_control_header(&self) -> bool {
        self.header_type == HeaderType::Control
    }

    /// An empty control record.
    pub fn new() -> (r: Self)
        ensures
            r.gview() == empty_gcontrol(),
            r.is_control_header(),
            r.define_directives@ == Map::<Seq<char>, Seq<char>>::empty(),
            views_of(r.include_directives@) == Seq::<Seq<char>>::empty(),
    {
        let r = Control {
            header_type: HeaderType::Control,
            define_directives: MacroTable::new(),
            default_path: Vec::new(),
            note_offset: 0,
            octave_offset: 0,
            label_ccn: CcMap::new(),
            set_ccn: CcMap::new(),
            include_directives: Vec::new(),
        };
        proof {
            assert(r.gview().labels =~= Map::<u32, GLabel>::empty());
            assert(r.gview().default_path =~= Seq::<char>::empty());
            assert(views_of(r.include_directives@) =~= Seq::<Seq<char>>::empty());
        }
        r
    }
}

impl Default for Control {
    /// The empty control record.
    fn default() -> (r: Self)
        ensures
            r.gview() == empty_gcontrol(),
            r.is_control_header(),
    {
        Control::new()
    }
}

/// The record before any control opcode has been interpreted.
pub open spec fn empty_gcontrol() -> GControl {
    GControl {
        default_path: Seq::empty(),
        note_offset: 0,
        octave_offset: 0,
        labels: Map::empty(),
        sets: Map::empty(),
    }
}

/// End of the maximal run of non-whitespace characters from `i`.
pub open spec fn token_end_spec(s: Seq<char>, i: int) -> int
    decreases s.len() - i,
{
    if i < 0 || i >= s.len() {
        s.len() as int
    } else if !space_char(s[i]) {
        token_end_spec(s, i + 1)
    } else {
        i
    }
}

/// Splits a label value into its primary label (the first
/// whitespace-delimited token) and, when a second token follows, that
/// token as the modulation qualifier.  A value with no whitespace is the
/// primary label alone.
pub open spec fn label_split_spec(value: Seq<char>) -> GLabel {
    let e1 = token_end_spec(value, 0);
    if e1 >= value.len() {
        (value, None)
    } else {
        let j = skip_spaces_spec(value, e1);
        if j >= value.len() {
            (value.subrange(0, e1), None)
        } else {
            (value.subrange(0, e1), Some(value.subrange(j, token_end_spec(value, j))))
        }
    }
}

/// Splits a label value into primary label and optional qualifier.
pub fn split_label(value: &Vec<char>) -> (r: (Vec<char>, Option<Vec<char>>))
    ensures
        ({
            let (p, q) = label_split_spec(value@);
            &&& r.0@ == p
            &&& match r.1 {
                Some(v) => q matches Some(qs) && v@ == qs,
                None => q is None,
            }
        }),
{
    let mut e1: usize = 0;
    while e1 < value.len() && !crate::lexer::is_space_char(value[e1])
        invariant
            0 <= e1 <= value@.len(),
            token_end_spec(value@, 0) == token_end_spec(value@, e1 as int),
        decreases value@.len() - e1,
    {
        e1 += 1;
    }
    proof {
        reveal_with_fuel(token_end_spec, 2);
    }
    if e1 >= value.len() {
        proof {
            assert(value@.subrange(0, value@.len() as int) =~= value@);
        }
        return (clone_chars(value), None);
    }
    let j = white_space(value, e1);
    if j >= value.len() {
        return (crate::lexer::copy_range(value, 0, e1), None);
    }
    let mut e2: usize = j;
    while e2 < value.len() && !crate::lexer::is_space_char(value[e2])
        invariant
            j <= e2 <= value@.len(),
            token_end_spec(value@, j as int) == token_end_spec(value@, e2 as int),
        decreases value@.len() - e2,
    {
        e2 += 1;
    }
    proof {
        reveal_with_fuel(token_end_spec, 2);
    }
    (crate::lexer::copy_range(value, 0, e1), Some(crate::lexer::copy_range(value, j, e2)))
}

/// Whether `key` is `prefix` followed by a decimal controller index of at
/// most nine digits.
pub open spec fn ctl_cc_key(key: Seq<char>, prefix: Seq<char>) -> bool {
    &&& key.len() > prefix.len()
    &&& key.take(prefix.len() as int) == prefix
    &&& key.len() - prefix.len() <= 9
    &&& parse_uint_spec(key.skip(prefix.len() as int)) is Some
}

/// The controller index such a key carries.
pub open spec fn ctl_cc_index(key: Seq<char>, prefix: Seq<char>) -> int {
    parse_uint_spec(key.skip(prefix.len() as int))->Some_0
}

/// Parses the controller index after `prefix`, if `key` is of that family.
pub fn parse_cc_var(key: &Vec<char>, prefix: &str) -> (r: Option<u32>)
    requires
        prefix.is_ascii(),
    ensures
        match r {
            Some(n) => ctl_cc_key(key@, prefix@) && ctl_cc_index(key@, prefix@) == n as int,
            None => !ctl_cc_key(key@, prefix@),
        },
{
    proof {
        vstd::string::is_ascii_spec_bytes(prefix);
    }
    let plen = prefix.as_bytes().len();
    if key.len() <= plen {
        return None;
    }
    if !crate::lexer::starts_with_lit(key, 0, prefix) {
        return None;
    }
    if key.len() - plen > 9 {
        return None;
    }
    proof {
        assert(key@.take(plen as int) =~= key@.subrange(0, plen as int));
        assert(key@.skip(plen as int) =~= key@.subrange(plen as int, key@.len() as int));
    }
    match parse_uint(key, plen, key.len()) {
        Some(v) => {
            proof {
                let suffix = key@.skip(plen as int);
                crate::numbers::lemma_digits_val_bound(suffix);
                crate::numbers::lemma_pow10_monotone(suffix.len(), 9);
                assert(crate::numbers::pow10(9) == 1000000000) by {
                    reveal_with_fuel(crate::numbers::pow10, 10);
                };
            }
            Some(v as u32)
        },
        None => None,
    }
}

/// One interpreted control opcode.
pub ghost enum CtlStep {
    Path(Seq<char>),
    Note(int),
    Octave(int),
    Label(u32, GLabel),
    SetCc(u32, u8),
    BadKey,
    Range(int, int),
}

/// Interprets one `key=value` pair against the closed control grammar.
pub open spec fn control_op_spec(key: Seq<char>, value: Seq<char>) -> CtlStep {
    if key == "default_path"@ {
        CtlStep::Path(value)
    } else if key == "note_offset"@ {
        match parse_int_spec(value) {
            Some(n) => if -127 <= n <= 127 {
                CtlStep::Note(n)
            } else {
                CtlStep::Range(-127, 127)
            },
            None => CtlStep::Range(-127, 127),
        }
    } else if key == "octave_offset"@ {
        match parse_int_spec(value) {
            Some(n) => if -10 <= n <= 10 {
                CtlStep::Octave(n)
            } else {
                CtlStep::Range(-10, 10)
            },
            None => CtlStep::Range(-10, 10),
        }
    } else if ctl_cc_key(key, "label_cc"@) {
        CtlStep::Label(ctl_cc_index(key, "label_cc"@) as u32, label_split_spec(value))
    } else if ctl_cc_key(key, "set_cc"@) {
        match parse_int_spec(value) {
            Some(n) => if 0 <= n <= 127 {
                CtlStep::SetCc(ctl_cc_index(key, "set_cc"@) as u32, n as u8)
            } else {
                CtlStep::Range(0, 127)
            },
            None => CtlStep::Range(0, 127),
        }
    } else {
        CtlStep::BadKey
    }
}

/// Interpreting a control block's opcodes in order over an accumulated
/// record; the first offending opcode aborts the interpretation.
pub ghost enum CtlOut {
    Done(GControl),
    BadKey(Seq<char>),
    Range(Seq<char>, Seq<char>, int, int),
}

/// Folds the control opcodes left to right into the record.
pub open spec fn interp_control(ops: Seq<GOp>, g: GControl) -> CtlOut
    decreases ops.len(),
{
    if ops.len() == 0 {
        CtlOut::Done(g)
    } else {
        let op = ops[0];
        match control_op_spec(op.key, op.value) {
            CtlStep::Path(p) => interp_control(
                ops.drop_first(),
                GControl { default_path: p, ..g },
            ),
            CtlStep::Note(n) => interp_control(ops.drop_first(), GControl { note_offset: n, ..g }),
            CtlStep::Octave(n) => interp_control(
                ops.drop_first(),
                GControl { octave_offset: n, ..g },
            ),
            CtlStep::Label(n, l) => interp_control(
                ops.drop_first(),
                GControl { labels: g.labels.insert(n, l), ..g },
            ),
            CtlStep::SetCc(n, v) => interp_control(
                ops.drop_first(),
                GControl { sets: g.sets.insert(n, v), ..g },
            ),
            CtlStep::BadKey => CtlOut::BadKey(op.key),
            CtlStep::Range(lo, hi) => CtlOut::Range(op.key, op.value, lo, hi),
        }
    }
}

/// The `default_path` value carried by this pair, if it is one.
pub fn parse_default_path(key: &Vec<char>, value: &Vec<char>) -> (r: Option<Vec<char>>)
    ensures
        match r {
            Some(p) => key@ == "default_path"@ && p@ == value@,
            None => key@ != "default_path"@,
        },
{
    proof {
        reveal_strlit("default_path");
    }
    if crate::lexer::chars_eq_lit(key, "default_path") {
        Some(clone_chars(value))
    } else {
        None
    }
}

/// The label binding carried by a `label_cc<N>` pair, if it is one.
pub fn parse_cc_label(key: &Vec<char>, value: &Vec<char>) -> (r: Option<
    (u32, Vec<char>, Option<Vec<char>>),
>)
    ensures
        match r {
            Some((n, p, q)) => ({
                &&& ctl_cc_key(key@, "label_cc"@) && ctl_cc_index(key@, "label_cc"@) == n as int
                &&& ({
                    let (sp, sq) = label_split_spec(value@);
                    p@ == sp && match q {
                        Some(v) => sq matches Some(x) && v@ == x,
                        None => sq is None,
                    }
                })
            }),
            None => !ctl_cc_key(key@, "label_cc"@),
        },
{
    proof {
        reveal_strlit("label_cc");
    }
    match parse_cc_var(key, "label_cc") {
        Some(n) => {
            let (p, q) = split_label(value);
            Some((n, p, q))
        },
        None => None,
    }
}

/// The default-value binding carried by a `set_cc<N>` pair, if it is one;
/// a value outside `0..=127` is reported with those bounds.
pub fn parse_set_ccn(key: &Vec<char>, value: &Vec<char>) -> (r: Option<Result<(u32, u8), ()>>)
    ensures
        match r {
            Some(Ok((n, v))) => ({
                &&& ctl_cc_key(key@, "set_cc"@) && ctl_cc_index(key@, "set_cc"@) == n as int
                &&& parse_int_spec(value@) == Some(v as int) && 0 <= v <= 127
            }),
            Some(Err(())) => ctl_cc_key(key@, "set_cc"@) && match parse_int_spec(value@) {
                Some(n) => !(0 <= n <= 127),
                None => true,
            },
            None => !ctl_cc_key(key@, "set_cc"@),
        },
{
    proof {
        reveal_strlit("set_cc");
        assert(value@.subrange(0, value@.len() as int) =~= value@);
    }
    match parse_cc_var(key, "set_cc") {
        Some(n) => {
            match parse_int(value, 0, value.len()) {
                Some(v) => {
                    if 0 <= v && v <= 127 {
                        Some(Ok((n, v as u8)))
                    } else {
                        Some(Err(()))
                    }
                },
                None => Some(Err(())),
            }
        },
        None => None,
    }
}

/// Interprets a control header block into a [`Control`] record.  Every
/// key must belong to the closed control grammar; for repeated `label_cc`
/// or `set_cc` indices the last occurrence wins; offsets and defaults are
/// range-checked.  The macro table and inclusion list are merged in by the
/// caller afterwards, from the preprocessor's output.
pub fn parse_control(block: &HeaderBlock) -> (r: Result<Control, SfzError>)
    ensures
        match r {
            Ok(c) => interp_control(op_views(block.opcodes@), empty_gcontrol()) == CtlOut::Done(
                c.gview(),
            ) && c.is_control_header() && c.define_directives@ == Map::<
                Seq<char>,
                Seq<char>,
            >::empty() && views_of(c.include_directives@) == Seq::<Seq<char>>::empty(),
            Err(SfzError::UnrecognizedControlKey { key }) => interp_control(
                op_views(block.opcodes@),
                empty_gcontrol(),
            ) == CtlOut::BadKey(key@),
            Err(SfzError::OpcodeRangeViolation { key, value, lo, hi }) => interp_control(
                op_views(block.opcodes@),
                empty_gcontrol(),
            ) == CtlOut::Range(key@, value@, lo as int, hi as int),
            Err(e) => false,
        },
{
    let mut c = Control::new();
    let n = block.opcodes.len();
    let mut i: usize = 0;
    proof {
        assert(op_views(block.opcodes@).skip(0) =~= op_views(block.opcodes@));
    }
    while i < n
        invariant
            0 <= i <= n,
            n == block.opcodes@.len(),
            c.is_control_header(),
            c.define_directives@ == Map::<Seq<char>, Seq<char>>::empty(),
            views_of(c.include_directives@) == Seq::<Seq<char>>::empty(),
            interp_control(op_views(block.opcodes@), empty_gcontrol()) == interp_control(
                op_views(block.opcodes@).skip(i as int),
                c.gview(),
            ),
        decreases n - i,
    {
        let ghost rem = op_views(block.opcodes@).skip(i as int);
        let op = &block.opcodes[i];
        proof {
            assert(rem[0] == (GOp { key: op.key@, value: op.value@ }));
            assert(rem.drop_first() =~= op_views(block.opcodes@).skip(i as int + 1));
            reveal_strlit("default_path");
            reveal_strlit("note_offset");
            reveal_strlit("octave_offset");
            reveal_strlit("label_cc");
            reveal_strlit("set_cc");
            assert("note_offset"@[0] == 'n');
            assert("octave_offset"@[0] == 'o');
            assert("default_path"@[0] == 'd');
            assert(op.value@.subrange(0, op.value@.len() as int) =~= op.value@);
        }
        match parse_default_path(&op.key, &op.value) {
            Some(p) => {
                c.default_path = p;
                i += 1;
                continue ;
            },
            None => {},
        }
        if crate::lexer::chars_eq_lit(&op.key, "note_offset") {
            match parse_int(&op.value, 0, op.value.len()) {
                Some(v) => {
                    if -127 <= v && v <= 127 {
                        c.note_offset = v as i32;
                        i += 1;
                        continue ;
                    } else {
                        return Err(
                            SfzError::OpcodeRangeViolation {
                                key: clone_chars(&op.key),
                                value: clone_chars(&op.value),
                                lo: -127,
                                hi: 127,
                            },
                        );
                    }
                },
                None => {
                    return Err(
                        SfzError::OpcodeRangeViolation {
                            key: clone_chars(&op.key),
                            value: clone_chars(&op.value),
                            lo: -127,
                            hi: 127,
                        },
                    );
                },
            }
        }
        if crate::lexer::chars_eq_lit(&op.key, "octave_offset") {
            match parse_int(&op.value, 0, op.value.len()) {
                Some(v) => {
                    if -10 <= v && v <= 10 {
                        c.octave_offset = v as i32;
                        i += 1;
                        continue ;
                    } else {
                        return Err(
                            SfzError::OpcodeRangeViolation {
                                key: clone_chars(&op.key),
                                value: clone_chars(&op.value),
                                lo: -10,
                                hi: 10,
                            },
                        );
                    }
                },
                None => {
                    return Err(
                        SfzError::OpcodeRangeViolation {
                            key: clone_chars(&op.key),
                            value: clone_chars(&op.value),
                            lo: -10,
                            hi: 10,
                        },
                    );
                },
            }
        }
        match parse_cc_label(&op.key, &op.value) {
            Some((idx, p, q)) => {
                let ghost before = c.gview();
                c.label_ccn.insert(idx, (p, q));
                proof {
                    assert(c.gview().labels =~= before.labels.insert(
                        idx,
                        label_split_spec(op.value@),
                    ));
                    assert(c.gview() == (GControl {
                        labels: before.labels.insert(idx, label_split_spec(op.value@)),
                        ..before
                    }));
                }
                i += 1;
                continue ;
            },
            None => {},
        }
        match parse_set_ccn(&op.key, &op.value) {
            Some(Ok((idx, v))) => {
                let ghost before = c.gview();
                c.set_ccn.insert(idx, v);
                proof {
                    assert(c.gview() == (GControl { sets: before.sets.insert(idx, v), ..before }));
                }
                i += 1;
                continue ;
            },
            Some(Err(())) => {
                return Err(
                    SfzError::OpcodeRangeViolation {
                        key: clone_chars(&op.key),
                        value: clone_chars(&op.value),
                        lo: 0,
                        hi: 127,
                    },
                );
            },
            None => {},
        }
        return Err(SfzError::UnrecognizedControlKey { key: clone_chars(&op.key) });
    }
    proof {
        assert(op_views(block.opcodes@).skip(n as int) =~= Seq::<GOp>::empty());
    }
    Ok(c)
}

/// Records macro bindings on the control record; a later binding of the
/// same name shadows an earlier one.
pub fn add_define_directives(control_header: &mut Control, directives: Vec<DefineDirective>)
    ensures
        final(control_header).define_directives@ == apply_defines_spec(
            old(control_header).define_directives@,
            directives@,
        ),
        *final(control_header) == (Control {
            define_directives: final(control_header).define_directives,
            ..*old(control_header)
        }),
{
    let ghost all = directives@;
    let n = directives.len();
    let mut i: usize = 0;
    while i < n
        invariant
            0 <= i <= n,
            n == all.len(),
            directives@ == all,
            control_header.define_directives@ == apply_defines_spec(
                old(control_header).define_directives@,
                all.take(i as int),
            ),
            *control_header == (Control {
                define_directives: control_header.define_directives,
                ..*old(control_header)
            }),
        decreases n - i,
    {
        let name = clone_chars(&directives[i].define_name);
        let value = clone_chars(&directives[i].define_value);
        proof {
            assert(all.take(i as int + 1).drop_last() =~= all.take(i as int));
            assert(all.take(i as int + 1).last() == all[i as int]);
        }
        control_header.define_directives.insert(name, value);
        i += 1;
    }
    proof {
        assert(all.take(n as int) =~= all);
    }
}

/// The macro table after recording `ds` in order, later bindings winning.
pub open spec fn apply_defines_spec(
    t: Map<Seq<char>, Seq<char>>,
    ds: Seq<DefineDirective>,
) -> Map<Seq<char>, Seq<char>>
    decreases ds.len(),
{
    if ds.len() == 0 {
        t
    } else {
        apply_defines_spec(t, ds.drop_last()).insert(
            ds.last().define_name@,
            ds.last().define_value@,
        )
    }
}

/// Appends resolved inclusion targets, keeping encounter order.
pub fn add_include_directives(control_header: &mut Control, directives: Vec<Vec<char>>)
    ensures
        views_of(final(control_header).include_directives@) == views_of(
            old(control_header).include_directives@,
        ) + views_of(directives@),
        *final(control_header) == (Control {
            include_directives: final(control_header).include_directives,
            ..*old(control_header)
        }),
{
    let ghost all = directives@;
    let n = directives.len();
    let mut i: usize = 0;
    while i < n
        invariant
            0 <= i <= n,
            n == all.len(),
            directives@ == all,
            views_of(control_header.include_directives@) =~= views_of(
                old(control_header).include_directives@,
            ) + views_of(all.take(i as int)),
            *control_header == (Control {
                include_directives: control_header.include_directives,
                ..*old(control_header)
            }),
        decreases n - i,
    {
        let d = clone_chars(&directives[i]);
        let ghost prev = control_header.include_directives@;
        let ghost dv = d@;
        control_header.include_directives.push(d);
        proof {
            assert(control_header.include_directives@ == prev.push(
                control_header.include_directives@.last(),
            )) by {
                assert(control_header.include_directives@ =~= prev.push(
                    control_header.include_directives@.last(),
                ));
            };
            crate::preprocess::lemma_views_push(prev, control_header.include_directives@.last());
            crate::preprocess::lemma_views_push(all.take(i as int), all[i as int]);
            assert(all.take(i as int + 1) =~= all.take(i as int).push(all[i as int]));
            assert(all[i as int]@ == dv);
            assert(views_of(control_header.include_directives@) =~= views_of(
                old(control_header).include_directives@,
            ) + views_of(all.take(i as int + 1)));
        }
        i += 1;
    }
    proof {
        assert(all.take(n as int) =~= all);
    }
}

/// Records CC default values, later entries for the same index winning.
pub fn add_set_ccns(control_header: &mut Control, set_ccns: Vec<(u32, u8)>)
    ensures
        final(control_header).set_ccn@ == apply_ccs_spec(old(control_header).set_ccn@, set_ccns@),
        *final(control_header) == (Control {
            set_ccn: final(control_header).set_ccn,
            ..*old(control_header)
        }),
{
    let ghost all = set_ccns@;
    let n = set_ccns.len();
    let mut i: usize = 0;
    while i < n
        invariant
            0 <= i <= n,
            n == all.len(),
            set_ccns@ == all,
            control_header.set_ccn@ == apply_ccs_spec(
                old(control_header).set_ccn@,
                all.take(i as int),
            ),
            *control_header == (Control { set_ccn: control_header.set_ccn, ..*old(control_header) }),
        decreases n - i,
    {
        let d = set_ccns[i];
        proof {
            assert(all.take(i as int + 1).drop_last() =~= all.take(i as int));
            assert(all.take(i as int + 1).last() == all[i as int]);
        }
        control_header.set_ccn.insert(d.0, d.1);
        i += 1;
    }
    proof {
        assert(all.take(n as int) =~= all);
    }
}

/// The CC default map after recording `es` in order, later entries winning.
pub open spec fn apply_ccs_spec(m: Map<u32, u8>, es: Seq<(u32, u8)>) -> Map<u32, u8>
    decreases es.len(),
{
    if es.len() == 0 {
        m
    } else {
        apply_ccs_spec(m, es.drop_last()).insert(es.last().0, es.last().1)
    }
}

/// Records CC labels, splitting each value into its primary label and
/// optional qualifier; later entries for the same index win.
pub fn add_label_ccns(control_header: &mut Control, label_ccns: Vec<(u32, Vec<char>)>)
    ensures
        label_view(final(control_header).label_ccn@) == apply_labels_spec(
            label_view(old(control_header).label_ccn@),
            label_ccns@.map_values(|e: (u32, Vec<char>)| (e.0, e.1@)),
        ),
        *final(control_header) == (Control {
            label_ccn: final(control_header).label_ccn,
            ..*old(control_header)
        }),
{
    let ghost all = label_ccns@.map_values(|e: (u32, Vec<char>)| (e.0, e.1@));
    let n = label_ccns.len();
    let mut i: usize = 0;
    while i < n
        invariant
            0 <= i <= n,
            n == all.len(),
            label_ccns@.map_values(|e: (u32, Vec<char>)| (e.0, e.1@)) == all,
            n == label_ccns@.len(),
            label_view(control_header.label_ccn@) == apply_labels_spec(
                label_view(old(control_header).label_ccn@),
                all.take(i as int),
            ),
            *control_header == (Control {
                label_ccn: control_header.label_ccn,
                ..*old(control_header)
            }),
        decreases n - i,
    {
        let idx = label_ccns[i].0;
        let (p, q) = split_label(&label_ccns[i].1);
        let ghost before = label_view(control_header.label_ccn@);
        proof {
            assert(all[i as int] == (label_ccns@[i as int].0, label_ccns@[i as int].1@));
            assert(all.take(i as int + 1).drop_last() =~= all.take(i as int));
            assert(all.take(i as int + 1).last() == all[i as int]);
        }
        control_header.label_ccn.insert(idx, (p, q));
        proof {
            assert(label_view(control_header.label_ccn@) =~= before.insert(
                idx,
                label_split_spec(label_ccns@[i as int].1@),
            ));
        }
        i += 1;
    }
    proof {
        assert(all.take(n as int) =~= all);
    }
}

/// The label map after recording `es` in order, each value split, later
/// entries winning.
pub open spec fn apply_labels_spec(
    m: Map<u32, GLabel>,
    es: Seq<(u32, Seq<char>)>,
) -> Map<u32, GLabel>
    decreases es.len(),
{
    if es.len() == 0 {
        m
    } else {
        apply_labels_spec(m, es.drop_last()).insert(
            es.last().0,
            label_split_spec(es.last().1),
        )
    }
}

} // verus!
