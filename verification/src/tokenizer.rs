//! The header tokenizer: splits the flattened text into an ordered
//! sequence of header blocks, each carrying its tag and its raw `key=value`
//! opcode pairs.  A tag outside the closed header set and structural text
//! that is neither a tag nor an opcode line are hard errors.
//!
//! A header tag stands at the start of a line (after whitespace); an
//! opcode's value runs to the end of its line with trailing whitespace
//! trimmed (so display labels may hold spaces), or is a quoted value
//! honoring backslash escapes.

use vstd::prelude::*;
use crate::lexer::{
    chars_eq_lit, copy_range, ident_end_spec, ident_run_end, inline_space_char, line_end_spec,
    quoted_scan_spec, scan_quoted_value, skip_spaces_spec, space_char, take_to_newline,
    white_space,
};
use crate::SfzError;

verus! {

/// The closed set of header kinds this format knows.  `Midi` and `Sample`
/// name header kinds of related dialects; no tag maps to them here.
#[derive(Debug, Clone, Copy, PartialEq, Eq, Structural, Hash)]
pub enum HeaderType {
    Region,
    Group,
    Control,
    Global,
    Curve,
    Effect,
    Master,
    Midi,
    Sample,
}

/// One raw `key=value` pair, before any type interpretation.  `pos` is the
/// byte offset of the key in the flattened text.
#[derive(Debug, Clone, PartialEq)]
pub struct RawOpcode {
    pub key: Vec<char>,
    pub value: Vec<char>,
    pub pos: usize,
}

/// One header block: its tag and its raw opcodes in document order.
#[derive(Debug, Clone, PartialEq)]
pub struct HeaderBlock {
    pub tag: HeaderType,
    pub opcodes: Vec<RawOpcode>,
    pub pos: usize,
}

/// A raw opcode as the specification sees it.
pub ghost struct GOp {
    pub key: Seq<char>,
    pub value: Seq<char>,
}

/// A header block as the specification sees it.
pub ghost struct GBlock {
    pub tag: HeaderType,
    pub ops: Seq<GOp>,
}

/// The pairs a vector of raw opcodes denotes.
pub open spec fn op_views(s: Seq<RawOpcode>) -> Seq<GOp> {
    s.map_values(|o: RawOpcode| GOp { key: o.key@, value: o.value@ })
}

/// The blocks a vector of header blocks denotes.
pub open spec fn block_views(s: Seq<HeaderBlock>) -> Seq<GBlock> {
    s.map_values(|b: HeaderBlock| GBlock { tag: b.tag, ops: op_views(b.opcodes@) })
}

/// The header kind a tag name denotes, if any.
pub open spec fn tag_of_spec(name: Seq<char>) -> Option<HeaderType> {
    if name == "control"@ {
        Some(HeaderType::Control)
    } else if name == "global"@ {
        Some(HeaderType::Global)
    } else if name == "master"@ {
        Some(HeaderType::Master)
    } else if name == "group"@ {
        Some(HeaderType::Group)
    } else if name == "region"@ {
        Some(HeaderType::Region)
    } else if name == "curve"@ {
        Some(HeaderType::Curve)
    } else if name == "effect"@ {
        Some(HeaderType::Effect)
    } else {
        None
    }
}

/// Looks a tag name up in the closed header set.
pub fn tag_of(name: &Vec<char>) -> (r: Option<HeaderType>)
    ensures
        r == tag_of_spec(name@),
{
    proof {
        reveal_strlit("control");
        reveal_strlit("global");
        reveal_strlit("master");
        reveal_strlit("group");
        reveal_strlit("region");
        reveal_strlit("curve");
        reveal_strlit("effect");
    }
    if chars_eq_lit(name, "control") {
        Some(HeaderType::Control)
    } else if chars_eq_lit(name, "global") {
        Some(HeaderType::Global)
    } else if chars_eq_lit(name, "master") {
        Some(HeaderType::Master)
    } else if chars_eq_lit(name, "group") {
        Some(HeaderType::Group)
    } else if chars_eq_lit(name, "region") {
        Some(HeaderType::Region)
    } else if chars_eq_lit(name, "curve") {
        Some(HeaderType::Curve)
    } else if chars_eq_lit(name, "effect") {
        Some(HeaderType::Effect)
    } else {
        None
    }
}

/// End of a value after trimming trailing inline whitespace, scanning back
/// from `b` but never before `a`.
pub open spec fn rtrim_spec(s: Seq<char>, a: int, b: int) -> int
    decreases b - a,
{
    if b <= a {
        a
    } else if inline_space_char(s[b - 1]) {
        rtrim_spec(s, a, b - 1)
    } else {
        b
    }
}

pub proof fn lemma_rtrim_bounds(s: Seq<char>, a: int, b: int)
    requires
        a <= b,
    ensures
        a <= rtrim_spec(s, a, b) <= b,
    decreases b - a,
{
    if b > a && inline_space_char(s[b - 1]) {
        lemma_rtrim_bounds(s, a, b - 1);
    }
}

/// One opcode line starting at `j` (a non-whitespace, non-`<` position):
/// an identifier key, `=`, then a quoted value or a bare value running to
/// the end of the line with trailing whitespace trimmed.  Yields the key,
/// the value and the position after the line's newline.
pub open spec fn key_line_spec(s: Seq<char>, j: int) -> Option<(Seq<char>, Seq<char>, int)> {
    let ke = ident_end_spec(s, j);
    if ke == j || ke >= s.len() || s[ke] != '=' {
        None
    } else {
        let key = s.subrange(j, ke);
        let vstart = ke + 1;
        if vstart < s.len() && s[vstart] == '"' {
            match quoted_scan_spec(s, vstart + 1) {
                Some((content, qe)) => {
                    let le = line_end_spec(s, qe);
                    if skip_spaces_spec(s, qe) >= le {
                        Some((key, content, if le < s.len() { le + 1 } else { s.len() as int }))
                    } else {
                        None
                    }
                },
                None => None,
            }
        } else {
            let le = line_end_spec(s, vstart);
            let ve = rtrim_spec(s, vstart, le);
            Some(
                (key, s.subrange(vstart, ve), if le < s.len() {
                    le + 1
                } else {
                    s.len() as int
                }),
            )
        }
    }
}

/// Outcome of scanning the opcodes between two header tags.
pub ghost enum OpsOut {
    /// The pairs, and the position of the next `<` or the end of input.
    Done { ops: Seq<GOp>, next: int },
    /// A structural error at this position.
    Bad { pos: int },
}

/// Scans `key=value` opcode lines from `i` until the next header tag or
/// the end of input.
pub open spec fn ops_scan_spec(s: Seq<char>, i: int) -> OpsOut
    decreases s.len() - i,
        via ops_scan_spec_dec
{
    if i < 0 || i > s.len() {
        OpsOut::Bad { pos: i }
    } else {
        let j = skip_spaces_spec(s, i);
        if j >= s.len() {
            OpsOut::Done { ops: Seq::empty(), next: s.len() as int }
        } else if s[j] == '<' {
            OpsOut::Done { ops: Seq::empty(), next: j }
        } else {
            match key_line_spec(s, j) {
                None => OpsOut::Bad { pos: j },
                Some((key, value, next)) => {
                    if next <= j {
                        OpsOut::Bad { pos: j }
                    } else {
                        match ops_scan_spec(s, next) {
                            OpsOut::Done { ops, next: np } => OpsOut::Done {
                                ops: seq![GOp { key, value }] + ops,
                                next: np,
                            },
                            e => e,
                        }
                    }
                },
            }
        }
    }
}

#[via_fn]
proof fn ops_scan_spec_dec(s: Seq<char>, i: int) {
    if 0 <= i <= s.len() {
        lemma_skip_spaces_bounds(s, i);
        let j = skip_spaces_spec(s, i);
        if j < s.len() && s[j] != '<' {
            lemma_key_line_bounds(s, j);
        }
    }
}

/// The whitespace skip stays within the text.
pub proof fn lemma_skip_spaces_bounds(s: Seq<char>, i: int)
    requires
        0 <= i <= s.len(),
    ensures
        i <= skip_spaces_spec(s, i) <= s.len(),
    decreases s.len() - i,
{
    if i < s.len() && space_char(s[i]) {
        lemma_skip_spaces_bounds(s, i + 1);
    }
}

/// A successful opcode-line scan moves forward and stays within the text.
pub proof fn lemma_key_line_bounds(s: Seq<char>, j: int)
    requires
        0 <= j <= s.len(),
    ensures
        match key_line_spec(s, j) {
            Some((key, value, next)) => j < next <= s.len(),
            None => true,
        },
{
    crate::lexer::lemma_ident_end_bounds(s, j);
    let ke = ident_end_spec(s, j);
    if ke != j && ke < s.len() && s[ke] == '=' {
        let vstart = ke + 1;
        if vstart < s.len() && s[vstart] == '"' {
            crate::lexer::lemma_quoted_scan_bounds(s, vstart + 1);
            match quoted_scan_spec(s, vstart + 1) {
                Some((content, qe)) => {
                    lemma_line_end_bounds_from(s, qe);
                },
                None => {},
            }
        } else {
            lemma_line_end_bounds_from(s, vstart);
        }
    }
}

/// The line end seen from `i` lies between `i` and the end of the text.
pub proof fn lemma_line_end_bounds_from(s: Seq<char>, i: int)
    requires
        0 <= i <= s.len(),
    ensures
        i <= line_end_spec(s, i) <= s.len(),
    decreases s.len() - i,
{
    if i < s.len() && s[i] != '\n' {
        lemma_line_end_bounds_from(s, i + 1);
    }
}

/// Outcome of tokenization.
pub ghost enum TokOut {
    /// The ordered header blocks.
    Done { blocks: Seq<GBlock> },
    /// A tag name outside the closed header set.
    BadTag { name: Seq<char> },
    /// Structural text that is neither a tag nor an opcode line.
    BadToken { pos: int },
}

/// Tokenizes from position `i`, which must be at whitespace before a
/// header tag or the end of input; text before the first tag must be
/// whitespace only.
pub open spec fn blocks_scan_spec(s: Seq<char>, i: int) -> TokOut
    decreases s.len() - i,
        via blocks_scan_spec_dec
{
    if i < 0 || i > s.len() {
        TokOut::BadToken { pos: i }
    } else {
        let j = skip_spaces_spec(s, i);
        if j >= s.len() {
            TokOut::Done { blocks: Seq::empty() }
        } else if s[j] != '<' {
            TokOut::BadToken { pos: j }
        } else {
            let te = ident_end_spec(s, j + 1);
            if te == j + 1 || te >= s.len() || s[te] != '>' {
                TokOut::BadToken { pos: j }
            } else {
                let name = s.subrange(j + 1, te);
                match tag_of_spec(name) {
                    None => TokOut::BadTag { name },
                    Some(tag) => match ops_scan_spec(s, te + 1) {
                        OpsOut::Bad { pos } => TokOut::BadToken { pos },
                        OpsOut::Done { ops, next } => {
                            if next <= j {
                                TokOut::BadToken { pos: j }
                            } else {
                                match blocks_scan_spec(s, next) {
                                    TokOut::Done { blocks } => TokOut::Done {
                                        blocks: seq![GBlock { tag, ops }] + blocks,
                                    },
                                    e => e,
                                }
                            }
                        },
                    },
                }
            }
        }
    }
}

#[via_fn]
proof fn blocks_scan_spec_dec(s: Seq<char>, i: int) {
    if 0 <= i <= s.len() {
        lemma_skip_spaces_bounds(s, i);
        let j = skip_spaces_spec(s, i);
        if j < s.len() && s[j] == '<' {
            crate::lexer::lemma_ident_end_bounds(s, j + 1);
            let te = ident_end_spec(s, j + 1);
            if !(te == j + 1 || te >= s.len() || s[te] != '>') {
                lemma_ops_scan_bounds(s, te + 1);
            }
        }
    }
}

/// The position after a successful opcode scan lies within the text.
pub proof fn lemma_ops_scan_bounds(s: Seq<char>, i: int)
    requires
        0 <= i <= s.len(),
    ensures
        match ops_scan_spec(s, i) {
            OpsOut::Done { ops, next } => i <= next <= s.len(),
            OpsOut::Bad { pos } => true,
        },
    decreases s.len() - i,
{
    lemma_skip_spaces_bounds(s, i);
    let j = skip_spaces_spec(s, i);
    if j < s.len() && s[j] != '<' {
        lemma_key_line_bounds(s, j);
        match key_line_spec(s, j) {
            Some((key, value, next)) => {
                if next > j {
                    lemma_ops_scan_bounds(s, next);
                }
            },
            None => {},
        }
    }
}

/// The whole tokenization: `tokenize(flattened) -> blocks | error`.
pub open spec fn tokenize_spec(s: Seq<char>) -> TokOut {
    blocks_scan_spec(s, 0)
}

/// Whether `c` is whitespace that does not end a line.
pub fn is_inline_space(c: char) -> (r: bool)
    ensures
        r == inline_space_char(c),
{
    c == ' ' || c == '\t' || c == '\r'
}

/// Scans one opcode line at `j`: `identifier "=" (quoted | bare)` with the
/// bare value running to the end of the line.
pub fn parse_key_value(s: &Vec<char>, j: usize) -> (r: Option<(RawOpcode, usize)>)
    requires
        j < s@.len(),
    ensures
        match r {
            Some((op, next)) => key_line_spec(s@, j as int) == Some(
                (op.key@, op.value@, next as int),
            ) && j < next <= s@.len(),
            None => key_line_spec(s@, j as int) is None,
        },
{
    proof {
        lemma_key_line_bounds(s@, j as int);
    }
    let ke = ident_run_end(s, j);
    if ke == j || ke >= s.len() {
        return None;
    }
    if s[ke] != '=' {
        return None;
    }
    let key = copy_range(s, j, ke);
    let vstart = ke + 1;
    if vstart < s.len() && s[vstart] == '"' {
        match scan_quoted_value(s, vstart + 1) {
            Some((content, qe)) => {
                let le = take_to_newline(s, qe);
                let ws = white_space(s, qe);
                if ws >= le {
                    let next = if le < s.len() {
                        le + 1
                    } else {
                        s.len()
                    };
                    Some((RawOpcode { key, value: content, pos: j }, next))
                } else {
                    None
                }
            },
            None => None,
        }
    } else {
        let le = take_to_newline(s, vstart);
        proof {
            lemma_rtrim_bounds(s@, vstart as int, le as int);
        }
        let mut ve: usize = le;
        while ve > vstart && is_inline_space(s[ve - 1])
            invariant
                vstart <= ve <= le <= s@.len(),
                rtrim_spec(s@, vstart as int, le as int) == rtrim_spec(
                    s@,
                    vstart as int,
                    ve as int,
                ),
            decreases ve,
        {
            ve -= 1;
        }
        let value = copy_range(s, vstart, ve);
        let next = if le < s.len() {
            le + 1
        } else {
            s.len()
        };
        Some((RawOpcode { key, value, pos: j }, next))
    }
}

/// Scans the opcodes between two header tags, starting at `i`.
fn scan_ops(s: &Vec<char>, i: usize) -> (r: Result<(Vec<RawOpcode>, usize), SfzError>)
    requires
        i <= s@.len(),
    ensures
        match r {
            Ok((ops, next)) => ops_scan_spec(s@, i as int) == (OpsOut::Done {
                ops: op_views(ops@),
                next: next as int,
            }) && i <= next <= s@.len(),
            Err(SfzError::UnexpectedToken { pos }) => ops_scan_spec(s@, i as int) is Bad,
            Err(e) => false,
        },
    decreases s@.len() - i,
{
    proof {
        lemma_ops_scan_bounds(s@, i as int);
    }
    let j = white_space(s, i);
    if j >= s.len() {
        let r: (Vec<RawOpcode>, usize) = (Vec::new(), s.len());
        proof {
            assert(op_views(r.0@) =~= Seq::<GOp>::empty());
        }
        return Ok(r);
    }
    if s[j] == '<' {
        let r: (Vec<RawOpcode>, usize) = (Vec::new(), j);
        proof {
            assert(op_views(r.0@) =~= Seq::<GOp>::empty());
        }
        return Ok(r);
    }
    match parse_key_value(s, j) {
        None => Err(SfzError::UnexpectedToken { pos: j }),
        Some((op, next)) => {
            let ghost gop = GOp { key: op.key@, value: op.value@ };
            match scan_ops(s, next) {
                Err(e) => Err(e),
                Ok((mut ops, np)) => {
                    let ghost tail = ops@;
                    ops.insert(0, op);
                    proof {
                        assert(op_views(ops@) =~= seq![gop] + op_views(tail)) by {
                            assert(forall|m: int|
                                0 <= m < tail.len() ==> ops@[1 + m] == tail[m]);
                        };
                    }
                    Ok((ops, np))
                },
            }
        },
    }
}

/// Tokenizes the blocks from position `i` on.
fn scan_blocks(s: &Vec<char>, i: usize) -> (r: Result<Vec<HeaderBlock>, SfzError>)
    requires
        i <= s@.len(),
    ensures
        match r {
            Ok(blocks) => blocks_scan_spec(s@, i as int) == (TokOut::Done {
                blocks: block_views(blocks@),
            }),
            Err(SfzError::UnrecognizedHeaderTag { name, pos }) => blocks_scan_spec(s@, i as int)
                == (TokOut::BadTag { name: name@ }),
            Err(SfzError::UnexpectedToken { pos }) => blocks_scan_spec(s@, i as int) is BadToken,
            Err(e) => false,
        },
    decreases s@.len() - i,
{
    let j = white_space(s, i);
    if j >= s.len() {
        let r: Vec<HeaderBlock> = Vec::new();
        proof {
            assert(block_views(r@) =~= Seq::<GBlock>::empty());
        }
        return Ok(r);
    }
    if s[j] != '<' {
        return Err(SfzError::UnexpectedToken { pos: j });
    }
    let te = ident_run_end(s, j + 1);
    if te == j + 1 || te >= s.len() {
        return Err(SfzError::UnexpectedToken { pos: j });
    }
    if s[te] != '>' {
        return Err(SfzError::UnexpectedToken { pos: j });
    }
    let name = copy_range(s, j + 1, te);
    match tag_of(&name) {
        None => Err(SfzError::UnrecognizedHeaderTag { name, pos: j }),
        Some(tag) => {
            match scan_ops(s, te + 1) {
                Err(e) => Err(e),
                Ok((ops, next)) => {
                    if next <= j {
                        return Err(SfzError::UnexpectedToken { pos: j });
                    }
                    let ghost gb = GBlock { tag, ops: op_views(ops@) };
                    match scan_blocks(s, next) {
                        Err(e) => Err(e),
                        Ok(mut blocks) => {
                            let ghost tail = blocks@;
                            blocks.insert(0, HeaderBlock { tag, opcodes: ops, pos: j });
                            proof {
                                assert(block_views(blocks@) =~= seq![gb] + block_views(tail)) by {
                                    assert(forall|m: int|
                                        0 <= m < tail.len() ==> blocks@[1 + m] == tail[m]);
                                };
                            }
                            Ok(blocks)
                        },
                    }
                },
            }
        },
    }
}

/// Splits the flattened text into its ordered header blocks.
pub fn tokenize(s: &Vec<char>) -> (r: Result<Vec<HeaderBlock>, SfzError>)
    ensures
        match r {
            Ok(blocks) => tokenize_spec(s@) == (TokOut::Done { blocks: block_views(blocks@) }),
            Err(SfzError::UnrecognizedHeaderTag { name, pos }) => tokenize_spec(s@)
                == (TokOut::BadTag { name: name@ }),
            Err(SfzError::UnexpectedToken { pos }) => tokenize_spec(s@) is BadToken,
            Err(e) => false,
        },
{
    scan_blocks(s, 0)
}

} // verus!
