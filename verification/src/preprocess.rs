//! The preprocessor: expands `#include` directives against a content
//! provider (with cycle detection), then captures `#define` directives and
//! substitutes `$NAME` macro references, producing one flattened text for
//! the structural tokenizer.
//!
//! The two passes are strictly ordered.  Inclusion is purely textual, so
//! splicing every inclusion first and then walking the flattened text once
//! for defines and references gives each reference the table state of its
//! position in the flattened stream, exactly as if both were done in one
//! walk; and a cycle is always found, whatever else is wrong in the text.

use vstd::prelude::*;
use crate::lexer::{
    bare_end_spec, ident_end_spec, line_end_spec, quoted_scan_spec, skip_spaces_spec,
    starts_with_at, chars_eq, copy_range, extend_chars, parse_value, scan_quoted_value,
    starts_with_lit, take_to_newline, white_space,
};
use crate::table::CharMap;
use crate::SfzError;

verus! {

/// One `#define` binding: a macro name (without the `$` sigil) and its
/// literal replacement text.
#[derive(Debug, Clone, PartialEq)]
pub struct DefineDirective {
    pub define_name: Vec<char>,
    pub define_value: Vec<char>,
}

/// The macro table: name to replacement text, created empty for each parse,
/// mutated only by `#define` directives, a later definition shadowing an
/// earlier one.
#[derive(Debug, Clone, PartialEq)]
pub struct MacroTable {
    entries: CharMap<Vec<char>>,
}

impl MacroTable {
    pub closed spec fn view(&self) -> Map<Seq<char>, Seq<char>> {
        Map::new(
            |k: Seq<char>| self.entries@.contains_key(k),
            |k: Seq<char>| self.entries@[k]@,
        )
    }

    pub fn new() -> (r: Self)
        ensures
            r@ == Map::<Seq<char>, Seq<char>>::empty(),
    {
        let r = MacroTable { entries: CharMap::new() };
        proof {
            assert(r@ =~= Map::<Seq<char>, Seq<char>>::empty());
        }
        r
    }

    /// Binds `name` to `value`, shadowing any earlier binding.
    pub fn insert(&mut self, name: Vec<char>, value: Vec<char>)
        ensures
            final(self)@ == old(self)@.insert(name@, value@),
    {
        let ghost n = name@;
        let ghost v = value@;
        self.entries.insert(name, value);
        proof {
            assert(self@ =~= old(self)@.insert(n, v));
        }
    }

    /// Looks a macro name up.
    pub fn get(&self, name: &Vec<char>) -> (r: Option<&Vec<char>>)
        ensures
            match r {
                Some(v) => self@.contains_key(name@) && v@ == self@[name@],
                None => !self@.contains_key(name@),
            },
    {
        self.entries.get(name)
    }
}

/// The content provider: resolved path to document text.  The caller fills
/// it before parsing; inclusion directives fetch from it.
#[derive(Debug, Clone, PartialEq)]
pub struct ContentProvider {
    docs: CharMap<Vec<char>>,
}

impl ContentProvider {
    pub closed spec fn view(&self) -> Map<Seq<char>, Seq<char>> {
        Map::new(|k: Seq<char>| self.docs@.contains_key(k), |k: Seq<char>| self.docs@[k]@)
    }

    pub fn new() -> (r: Self)
        ensures
            r@ == Map::<Seq<char>, Seq<char>>::empty(),
    {
        let r = ContentProvider { docs: CharMap::new() };
        proof {
            assert(r@ =~= Map::<Seq<char>, Seq<char>>::empty());
        }
        r
    }

    /// Makes `text` available under `path`.
    pub fn add_document(&mut self, path: Vec<char>, text: Vec<char>)
        ensures
            final(self)@ == old(self)@.insert(path@, text@),
    {
        let ghost p = path@;
        let ghost t = text@;
        self.docs.insert(path, text);
        proof {
            assert(self@ =~= old(self)@.insert(p, t));
        }
    }

    /// Fetches the text stored under `path`.
    pub fn fetch(&self, path: &Vec<char>) -> (r: Option<&Vec<char>>)
        ensures
            match r {
                Some(t) => self@.contains_key(path@) && t@ == self@[path@],
                None => !self@.contains_key(path@),
            },
    {
        self.docs.get(path)
    }

    /// A provider always holds finitely many documents.
    pub proof fn lemma_finite(&self)
        ensures
            self@.dom().finite(),
    {
        self.docs.lemma_view_finite();
        assert(self@.dom() =~= self.docs@.dom());
    }
}

/// How one line relates to the inclusion-directive grammar.
pub ghost enum IncDirective {
    /// The line does not begin with the directive word.
    No,
    /// It begins with the directive word but does not match the grammar.
    Bad,
    /// A well-formed directive naming this (relative) path.
    Yes(Seq<char>),
}

/// Classifies `line` against `"#include" WS '"' PATH '"'`.
pub open spec fn inc_line_spec(line: Seq<char>) -> IncDirective {
    let i = skip_spaces_spec(line, 0);
    if !starts_with_at(line, i, "#include"@) {
        IncDirective::No
    } else {
        let j = i + "#include"@.len();
        let k = skip_spaces_spec(line, j);
        if k == j || k >= line.len() || line[k] != '"' {
            IncDirective::Bad
        } else {
            match quoted_scan_spec(line, k + 1) {
                Some((path, e)) => {
                    if path.len() > 0 && skip_spaces_spec(line, e) == line.len() {
                        IncDirective::Yes(path)
                    } else {
                        IncDirective::Bad
                    }
                },
                None => IncDirective::Bad,
            }
        }
    }
}

/// Executable result of scanning one line for an inclusion directive.
#[derive(Debug, Clone, PartialEq)]
pub enum IncScan {
    NotDirective,
    Bad,
    Path(Vec<char>),
}

/// Scans one line for an inclusion directive.
pub fn parse_include_line(line: &Vec<char>) -> (r: IncScan)
    ensures
        match r {
            IncScan::NotDirective => inc_line_spec(line@) is No,
            IncScan::Bad => inc_line_spec(line@) is Bad,
            IncScan::Path(p) => inc_line_spec(line@) == IncDirective::Yes(p@),
        },
{
    proof {
        reveal_strlit("#include");
    }
    let n = line.len();
    let i = white_space(line, 0);
    if !starts_with_lit(line, i, "#include") {
        return IncScan::NotDirective;
    }
    proof {
        assert(i + 8 <= n);
    }
    let j = i + 8;
    let k = white_space(line, j);
    if k == j || k >= line.len() {
        return IncScan::Bad;
    }
    if line[k] != '"' {
        return IncScan::Bad;
    }
    match scan_quoted_value(line, k + 1) {
        Some((path, e)) => {
            let m = white_space(line, e);
            if path.len() > 0 && m == line.len() {
                IncScan::Path(path)
            } else {
                IncScan::Bad
            }
        },
        None => IncScan::Bad,
    }
}

/// How one line relates to the define-directive grammar.
pub ghost enum DefDirective {
    /// The line does not begin with the directive word.
    No,
    /// It begins with the directive word but does not match the grammar.
    Bad,
    /// A well-formed directive binding this name to this value.
    Yes(Seq<char>, Seq<char>),
}

/// Classifies `line` against `"#define" WS "$" IDENT WS VALUE`.
pub open spec fn define_line_spec(line: Seq<char>) -> DefDirective {
    let i = skip_spaces_spec(line, 0);
    if !starts_with_at(line, i, "#define"@) {
        DefDirective::No
    } else {
        let j = i + "#define"@.len();
        let k = skip_spaces_spec(line, j);
        if k == j || k >= line.len() || line[k] != '$' {
            DefDirective::Bad
        } else {
            let ne = ident_end_spec(line, k + 1);
            if ne == k + 1 {
                DefDirective::Bad
            } else {
                let m = skip_spaces_spec(line, ne);
                let ve = bare_end_spec(line, m);
                if m == ne || ve == m {
                    DefDirective::Bad
                } else {
                    if skip_spaces_spec(line, ve) == line.len() {
                        DefDirective::Yes(line.subrange(k + 1, ne), line.subrange(m, ve))
                    } else {
                        DefDirective::Bad
                    }
                }
            }
        }
    }
}

/// Executable result of scanning one line for a define directive.
#[derive(Debug, Clone, PartialEq)]
pub enum DefScan {
    NotDirective,
    Bad,
    Binding(DefineDirective),
}

/// Scans one line for a define directive.
pub fn parse_define_line(line: &Vec<char>) -> (r: DefScan)
    ensures
        match r {
            DefScan::NotDirective => define_line_spec(line@) is No,
            DefScan::Bad => define_line_spec(line@) is Bad,
            DefScan::Binding(d) => define_line_spec(line@) == DefDirective::Yes(
                d.define_name@,
                d.define_value@,
            ),
        },
{
    proof {
        reveal_strlit("#define");
    }
    let n = line.len();
    let i = white_space(line, 0);
    if !starts_with_lit(line, i, "#define") {
        return DefScan::NotDirective;
    }
    proof {
        assert(i + 7 <= n);
    }
    let j = i + 7;
    let k = white_space(line, j);
    if k == j || k >= line.len() {
        return DefScan::Bad;
    }
    if line[k] != '$' {
        return DefScan::Bad;
    }
    let ne = crate::lexer::ident_run_end(line, k + 1);
    if ne == k + 1 {
        return DefScan::Bad;
    }
    let m = white_space(line, ne);
    let ve = parse_value(line, m);
    if m == ne || ve == m {
        return DefScan::Bad;
    }
    let after = white_space(line, ve);
    if after == line.len() {
        let name = copy_range(line, k + 1, ne);
        let value = copy_range(line, m, ve);
        DefScan::Binding(DefineDirective { define_name: name, define_value: value })
    } else {
        DefScan::Bad
    }
}

/// Outcome of substituting macro references in a line.
pub ghost enum SubstOut {
    /// The substituted text.
    Done(Seq<char>),
    /// An unbound reference to this macro name.
    Unbound(Seq<char>),
}

/// One-pass macro substitution: each `$NAME` (maximal identifier run after
/// the sigil) is replaced by its bound text exactly once; the replacement
/// is never rescanned, so a sigil inside it stays literal.  A `$` followed
/// by no identifier character is an ordinary character.
pub open spec fn subst_spec(line: Seq<char>, t: Map<Seq<char>, Seq<char>>) -> SubstOut
    decreases line.len(),
        via subst_spec_dec
{
    if line.len() == 0 {
        SubstOut::Done(Seq::empty())
    } else if line[0] == '$' && ident_end_spec(line, 1) > 1 {
        let e = ident_end_spec(line, 1);
        let name = line.subrange(1, e);
        if t.contains_key(name) {
            match subst_spec(line.skip(e), t) {
                SubstOut::Done(r) => SubstOut::Done(t[name] + r),
                u => u,
            }
        } else {
            SubstOut::Unbound(name)
        }
    } else {
        match subst_spec(line.skip(1), t) {
            SubstOut::Done(r) => SubstOut::Done(seq![line[0]] + r),
            u => u,
        }
    }
}

#[via_fn]
proof fn subst_spec_dec(line: Seq<char>, t: Map<Seq<char>, Seq<char>>) {
    if line.len() > 0 {
        crate::lexer::lemma_ident_end_bounds(line, 1);
    }
}

/// Substitutes macro references in one line.
pub fn subst_line(line: &Vec<char>, t: &MacroTable) -> (r: Result<Vec<char>, Vec<char>>)
    ensures
        match r {
            Ok(out) => subst_spec(line@, t@) == SubstOut::Done(out@),
            Err(name) => subst_spec(line@, t@) == SubstOut::Unbound(name@),
        },
{
    let mut acc: Vec<char> = Vec::new();
    let mut j: usize = 0;
    proof {
        assert(line@.skip(0) =~= line@);
    }
    while j < line.len()
        invariant
            0 <= j <= line@.len(),
            ({
                let full = subst_spec(line@, t@);
                match subst_spec(line@.skip(j as int), t@) {
                    SubstOut::Done(rr) => full == SubstOut::Done(acc@ + rr),
                    u => full == u,
                }
            }),
        decreases line@.len() - j,
    {
        let ghost rem = line@.skip(j as int);
        let c = line[j];
        proof {
            assert(rem[0] == c);
            crate::lexer::lemma_ident_end_shift(line@, j as int, j as int + 1);
        }
        if c == '$' {
            let ne = crate::lexer::ident_run_end(line, j + 1);
            if ne > j + 1 {
                let ghost e = ne - j;
                proof {
                    assert(ident_end_spec(rem, 1) == e);
                    assert(rem.subrange(1, e as int) =~= line@.subrange(j as int + 1, ne as int));
                    assert(rem.skip(e as int) =~= line@.skip(ne as int));
                }
                let name = copy_range(line, j + 1, ne);
                match t.get(&name) {
                    Some(v) => {
                        proof {
                            match subst_spec(line@.skip(ne as int), t@) {
                                SubstOut::Done(rr) => {
                                    assert(acc@ + (t@[name@] + rr) =~= (acc@ + v@) + rr);
                                },
                                _ => {},
                            }
                        }
                        extend_chars(&mut acc, v);
                        j = ne;
                    },
                    None => {
                        return Err(name);
                    },
                }
            } else {
                proof {
                    assert(rem.skip(1) =~= line@.skip(j as int + 1));
                    match subst_spec(line@.skip(j as int + 1), t@) {
                        SubstOut::Done(rr) => {
                            assert(acc@ + (seq![c] + rr) =~= acc@.push(c) + rr);
                        },
                        _ => {},
                    }
                }
                acc.push(c);
                j += 1;
            }
        } else {
            proof {
                assert(rem.skip(1) =~= line@.skip(j as int + 1));
                match subst_spec(line@.skip(j as int + 1), t@) {
                    SubstOut::Done(rr) => {
                        assert(acc@ + (seq![c] + rr) =~= acc@.push(c) + rr);
                    },
                    _ => {},
                }
            }
            acc.push(c);
            j += 1;
        }
    }
    proof {
        assert(line@.skip(line@.len() as int) =~= Seq::<char>::empty());
        assert(acc@ + Seq::<char>::empty() =~= acc@);
    }
    Ok(acc)
}

/// Path separator: both conventions appear in instrument documents.
pub open spec fn sep_char(c: char) -> bool {
    c == '/' || c == '\\'
}

/// Length of the directory prefix of `s`: everything through the last
/// separator, or zero if there is none.
pub open spec fn dir_len_spec(s: Seq<char>) -> int
    decreases s.len(),
{
    if s.len() == 0 {
        0
    } else if sep_char(s.last()) {
        s.len() as int
    } else {
        dir_len_spec(s.drop_last())
    }
}

pub proof fn lemma_dir_len_bounds(s: Seq<char>)
    ensures
        0 <= dir_len_spec(s) <= s.len(),
    decreases s.len(),
{
    if s.len() > 0 && !sep_char(s.last()) {
        lemma_dir_len_bounds(s.drop_last());
    }
}

/// The directory prefix of a path, separator included.
pub open spec fn dir_of_spec(s: Seq<char>) -> Seq<char> {
    s.take(dir_len_spec(s))
}

/// An inclusion path is resolved against the directory of the document
/// holding the directive.
pub open spec fn resolve_spec(dir: Seq<char>, rel: Seq<char>) -> Seq<char> {
    dir + rel
}

/// The character sequences a vector of character vectors denotes.
pub open spec fn views_of(s: Seq<Vec<char>>) -> Seq<Seq<char>> {
    s.map_values(|v: Vec<char>| v@)
}

/// Appending one vector appends its view.
pub proof fn lemma_views_push(s: Seq<Vec<char>>, v: Vec<char>)
    ensures
        views_of(s.push(v)) =~= views_of(s).push(v@),
{
    assert forall|m: int| 0 <= m < s.len() + 1 implies views_of(s.push(v))[m] == views_of(
        s,
    ).push(v@)[m] by {
        if m < s.len() {
            assert(s.push(v)[m] == s[m]);
        } else {
            assert(s.push(v)[m] == v);
        }
    }
}

/// Directory prefix of `path`, separator included; empty if none.
pub fn dir_of(path: &Vec<char>) -> (r: Vec<char>)
    ensures
        r@ == dir_of_spec(path@),
{
    let mut e: usize = path.len();
    proof {
        lemma_dir_len_bounds(path@);
        assert(path@.take(path@.len() as int) =~= path@);
    }
    while e > 0 && !is_sep(path[e - 1])
        invariant
            0 <= e <= path@.len(),
            dir_len_spec(path@) == dir_len_spec(path@.take(e as int)),
        decreases e,
    {
        proof {
            let cur = path@.take(e as int);
            assert(cur.last() == path@[e - 1]);
            assert(cur.drop_last() =~= path@.take(e as int - 1));
        }
        e -= 1;
    }
    proof {
        if e > 0 {
            let cur = path@.take(e as int);
            assert(cur.last() == path@[e - 1]);
            assert(dir_len_spec(cur) == e);
        } else {
            assert(path@.take(0) =~= Seq::<char>::empty());
        }
    }
    copy_range(path, 0, e)
}

/// Whether `c` separates path components.
pub fn is_sep(c: char) -> (r: bool)
    ensures
        r == sep_char(c),
{
    c == '/' || c == '\\'
}

/// Joins a directory prefix and a relative path.
pub fn resolve_path(dir: &Vec<char>, rel: &Vec<char>) -> (r: Vec<char>)
    ensures
        r@ == resolve_spec(dir@, rel@),
{
    let mut r = copy_range(dir, 0, dir.len());
    extend_chars(&mut r, rel);
    proof {
        assert(dir@.subrange(0, dir@.len() as int) =~= dir@);
    }
    r
}

/// Copies a character vector.
pub fn clone_chars(v: &Vec<char>) -> (r: Vec<char>)
    ensures
        r@ == v@,
{
    let r = copy_range(v, 0, v.len());
    proof {
        assert(v@.subrange(0, v@.len() as int) =~= v@);
    }
    r
}

/// The active inclusion chain is sound for `prov`: finitely many documents,
/// no path twice, and every frame fetched from the provider.
pub open spec fn wf_stack(prov: Map<Seq<char>, Seq<char>>, stack: Seq<Seq<char>>) -> bool {
    &&& prov.dom().finite()
    &&& stack.no_duplicates()
    &&& forall|i: int| 0 <= i < stack.len() ==> prov.dom().contains(#[trigger] stack[i])
}

/// Number of provider documents not yet on the inclusion chain; the
/// recursion measure of expansion.
pub open spec fn free_count(prov: Map<Seq<char>, Seq<char>>, stack: Seq<Seq<char>>) -> nat {
    prov.dom().difference(stack.to_set()).len()
}

/// Pushing a fresh provider path onto the chain strictly shrinks the
/// number of free documents.
pub proof fn lemma_free_decreases(
    prov: Map<Seq<char>, Seq<char>>,
    stack: Seq<Seq<char>>,
    path: Seq<char>,
)
    requires
        wf_stack(prov, stack),
        prov.dom().contains(path),
        !stack.contains(path),
    ensures
        wf_stack(prov, stack.push(path)),
        free_count(prov, stack.push(path)) < free_count(prov, stack),
{
    let s2 = stack.push(path);
    assert forall|i: int, j: int|
        0 <= i < s2.len() && 0 <= j < s2.len() && i != j implies s2[i] != s2[j] by {
        if i < stack.len() && j < stack.len() {
        } else if i < stack.len() {
            assert(stack[i] == s2[i]);
            if s2[i] == path {
                assert(stack.contains(path));
            }
        } else if j < stack.len() {
            assert(stack[j] == s2[j]);
            if s2[j] == path {
                assert(stack.contains(path));
            }
        }
    }
    assert(s2.to_set() =~= stack.to_set().insert(path)) by {
        assert forall|x: Seq<char>| s2.contains(x) implies stack.contains(x) || x == path by {
            let i = choose|i: int| 0 <= i < s2.len() && s2[i] == x;
            if i < stack.len() {
                assert(stack[i] == x);
            }
        }
        assert forall|x: Seq<char>| stack.contains(x) implies s2.contains(x) by {
            let i = choose|i: int| 0 <= i < stack.len() && stack[i] == x;
            assert(s2[i] == x);
        }
        assert(s2[stack.len() as int] == path);
        assert(s2.contains(path));
    }
    let d = prov.dom().difference(stack.to_set());
    let d2 = prov.dom().difference(s2.to_set());
    assert(d2 =~= d.remove(path));
    vstd::set::axiom_set_difference_finite(prov.dom(), stack.to_set());
    assert(d.contains(path));
    vstd::set::axiom_set_remove_len(d, path);
}

/// Outcome of inclusion expansion.
pub ghost enum ExpandOut {
    /// The flattened text and the resolved inclusion targets in encounter
    /// order (each directive's path before the targets spliced from inside
    /// it, in textual order).
    Done { text: Seq<char>, spliced: Seq<Seq<char>> },
    /// A path already on the active inclusion chain was asked for again.
    Cycle { path: Seq<char> },
    /// The provider has no document under this path.
    NotFound { path: Seq<char> },
    /// A directive line that does not match the grammar.
    Malformed,
}

/// Inclusion expansion of `s` under provider `prov`, resolving relative
/// paths against `dir`, with `stack` the active inclusion chain.  Every
/// line is kept verbatim (directives excepted) with a `\n` terminator;
/// a well-formed inclusion directive is replaced by the expansion of the
/// named document.
pub open spec fn expand_spec(
    s: Seq<char>,
    prov: Map<Seq<char>, Seq<char>>,
    dir: Seq<char>,
    stack: Seq<Seq<char>>,
) -> ExpandOut
    decreases free_count(prov, stack), s.len(),
        when wf_stack(prov, stack)
        via expand_spec_dec
{
    if s.len() == 0 {
        ExpandOut::Done { text: Seq::empty(), spliced: Seq::empty() }
    } else {
        let le = line_end_spec(s, 0);
        let line = s.take(le);
        let rest = if le < s.len() {
            s.skip(le + 1)
        } else {
            Seq::empty()
        };
        match inc_line_spec(line) {
            IncDirective::Bad => ExpandOut::Malformed,
            IncDirective::Yes(rel) => {
                let path = resolve_spec(dir, rel);
                if stack.contains(path) {
                    ExpandOut::Cycle { path }
                } else if !prov.dom().contains(path) {
                    ExpandOut::NotFound { path }
                } else {
                    match expand_spec(prov[path], prov, dir_of_spec(path), stack.push(path)) {
                        ExpandOut::Done { text: t1, spliced: i1 } => {
                            match expand_spec(rest, prov, dir, stack) {
                                ExpandOut::Done { text: t2, spliced: i2 } => ExpandOut::Done {
                                    text: t1 + t2,
                                    spliced: seq![path] + i1 + i2,
                                },
                                e => e,
                            }
                        },
                        e => e,
                    }
                }
            },
            IncDirective::No => {
                match expand_spec(rest, prov, dir, stack) {
                    ExpandOut::Done { text: t2, spliced: i2 } => ExpandOut::Done {
                        text: line + seq!['\n'] + t2,
                        spliced: i2,
                    },
                    e => e,
                }
            },
        }
    }
}

#[via_fn]
proof fn expand_spec_dec(
    s: Seq<char>,
    prov: Map<Seq<char>, Seq<char>>,
    dir: Seq<char>,
    stack: Seq<Seq<char>>,
) {
    if s.len() > 0 {
        lemma_line_end_bounds(s);
        let le = line_end_spec(s, 0);
        let line = s.take(le);
        match inc_line_spec(line) {
            IncDirective::Yes(rel) => {
                let path = resolve_spec(dir, rel);
                if !stack.contains(path) && prov.dom().contains(path) {
                    lemma_free_decreases(prov, stack, path);
                }
            },
            _ => {},
        }
    }
}

/// The line end found from the start of `s` lies within `s`.
pub proof fn lemma_line_end_bounds(s: Seq<char>)
    ensures
        0 <= line_end_spec(s, 0) <= s.len(),
{
    crate::lexer::lemma_line_end_shift(s, 0, 0);
    lemma_line_end_bounds_rec(s, 0);
}

proof fn lemma_line_end_bounds_rec(s: Seq<char>, i: int)
    requires
        0 <= i <= s.len(),
    ensures
        i <= line_end_spec(s, i) <= s.len(),
    decreases s.len() - i,
{
    if i < s.len() && s[i] != '\n' {
        lemma_line_end_bounds_rec(s, i + 1);
    }
}

/// Whether `path` is on the chain.
fn stack_contains(stack: &Vec<Vec<char>>, path: &Vec<char>) -> (r: bool)
    ensures
        r == views_of(stack@).contains(path@),
{
    let mut i: usize = 0;
    while i < stack.len()
        invariant
            0 <= i <= stack@.len(),
            forall|m: int| 0 <= m < i ==> stack@[m]@ != path@,
        decreases stack@.len() - i,
    {
        if chars_eq(&stack[i], path) {
            proof {
                assert(views_of(stack@)[i as int] == path@);
            }
            return true;
        }
        i += 1;
    }
    proof {
        assert forall|m: int|
            0 <= m < views_of(stack@).len() implies views_of(stack@)[m] != path@ by {
            assert(views_of(stack@)[m] == stack@[m]@);
        }
    }
    false
}

/// The chain with `path` pushed, as a fresh vector.
fn push_stack(stack: &Vec<Vec<char>>, path: &Vec<char>) -> (r: Vec<Vec<char>>)
    ensures
        views_of(r@) == views_of(stack@).push(path@),
{
    let mut r: Vec<Vec<char>> = Vec::new();
    let mut i: usize = 0;
    while i < stack.len()
        invariant
            0 <= i <= stack@.len(),
            r@.len() == i,
            forall|m: int| 0 <= m < i ==> r@[m]@ == stack@[m]@,
        decreases stack@.len() - i,
    {
        r.push(clone_chars(&stack[i]));
        i += 1;
    }
    r.push(clone_chars(path));
    proof {
        assert forall|m: int|
            0 <= m < r@.len() implies views_of(r@)[m] == views_of(stack@).push(path@)[m] by {
            if m < stack@.len() {
                assert(r@[m]@ == stack@[m]@);
            } else {
                assert(r@[m]@ == path@);
            }
        }
        assert(views_of(r@) =~= views_of(stack@).push(path@));
    }
    r
}

/// Expands inclusion directives in `text` from offset `p` on.  Returns the
/// flattened text and the resolved inclusion targets in encounter order.
#[verifier::rlimit(80)]
pub fn expand_from(
    text: &Vec<char>,
    p: usize,
    provider: &ContentProvider,
    dir: &Vec<char>,
    stack: &Vec<Vec<char>>,
) -> (r: Result<(Vec<char>, Vec<Vec<char>>), SfzError>)
    requires
        p <= text@.len(),
        wf_stack(provider@, views_of(stack@)),
    ensures
        ({
            let out = expand_spec(text@.skip(p as int), provider@, dir@, views_of(stack@));
            match r {
                Ok((t, inc)) => out == (ExpandOut::Done {
                    text: t@,
                    spliced: views_of(inc@),
                }),
                Err(SfzError::IncludeCycle { path }) => out == (ExpandOut::Cycle {
                    path: path@,
                }),
                Err(SfzError::IncludeNotFound { path }) => out == (ExpandOut::NotFound {
                    path: path@,
                }),
                Err(SfzError::MalformedDirective { pos }) => out is Malformed,
                Err(e) => false,
            }
        }),
    decreases free_count(provider@, views_of(stack@)), text@.len() - p,
{
    let ghost rem = text@.skip(p as int);
    if p == text.len() {
        let r: (Vec<char>, Vec<Vec<char>>) = (Vec::new(), Vec::new());
        proof {
            assert(rem =~= Seq::<char>::empty());
            assert(r.0@ =~= Seq::<char>::empty());
            assert(views_of(r.1@) =~= Seq::<Seq<char>>::empty());
        }
        return Ok(r);
    }
    let e = take_to_newline(text, p);
    let line = copy_range(text, p, e);
    let next_p = if e < text.len() {
        e + 1
    } else {
        e
    };
    proof {
        crate::lexer::lemma_line_end_shift(text@, p as int, p as int);
        assert(line_end_spec(rem, 0) == e - p);
        assert(line@ =~= rem.take(e - p));
        if e < text@.len() {
            assert(text@.skip(next_p as int) =~= rem.skip(e - p + 1));
        } else {
            assert(text@.skip(next_p as int) =~= Seq::<char>::empty());
        }
    }
    match parse_include_line(&line) {
        IncScan::Bad => Err(SfzError::MalformedDirective { pos: p }),
        IncScan::Path(rel) => {
            let path = resolve_path(dir, &rel);
            if stack_contains(stack, &path) {
                return Err(SfzError::IncludeCycle { path });
            }
            match provider.fetch(&path) {
                None => Err(SfzError::IncludeNotFound { path }),
                Some(content) => {
                    let sub_dir = dir_of(&path);
                    let stack2 = push_stack(stack, &path);
                    proof {
                        lemma_free_decreases(provider@, views_of(stack@), path@);
                    }
                    let (mut t1, mut i1) = match expand_from(
                        content,
                        0,
                        provider,
                        &sub_dir,
                        &stack2,
                    ) {
                        Ok(x) => x,
                        Err(err) => {
                            proof {
                                assert(content@.skip(0) =~= content@);
                            }
                            return Err(err);
                        },
                    };
                    proof {
                        assert(content@.skip(0) =~= content@);
                    }
                    let (mut t2, mut i2) = match expand_from(text, next_p, provider, dir, stack) {
                        Ok(x) => x,
                        Err(err) => {
                            return Err(err);
                        },
                    };
                    extend_chars(&mut t1, &t2);
                    let ghost gpath = path@;
                    let ghost g1 = i1@;
                    let ghost g2 = i2@;
                    let mut inc: Vec<Vec<char>> = Vec::new();
                    inc.push(path);
                    inc.append(&mut i1);
                    inc.append(&mut i2);
                    proof {
                        assert(inc@ =~= seq![inc@[0]] + g1 + g2);
                        assert(views_of(inc@) =~= seq![gpath] + views_of(g1) + views_of(g2)) by {
                            assert(forall|m: int|
                                0 <= m < inc@.len() ==> views_of(inc@)[m] == inc@[m]@);
                            assert(inc@[0]@ == gpath);
                            assert(forall|m: int|
                                0 <= m < g1.len() ==> inc@[1 + m]@ == views_of(g1)[m]);
                            assert(forall|m: int|
                                0 <= m < g2.len() ==> inc@[1 + g1.len() + m]@ == views_of(g2)[m]);
                        };
                    }
                    Ok((t1, inc))
                },
            }
        },
        IncScan::NotDirective => {
            let (t2, i2) = match expand_from(text, next_p, provider, dir, stack) {
                Ok(x) => x,
                Err(err) => {
                    return Err(err);
                },
            };
            let mut out = line;
            out.push('\n');
            extend_chars(&mut out, &t2);
            proof {
                assert(out@ =~= rem.take(e - p) + seq!['\n'] + t2@);
            }
            Ok((out, i2))
        },
    }
}

/// Outcome of the define-capture and substitution pass.
pub ghost enum DefOut {
    /// The substituted text and the final macro table.
    Done { text: Seq<char>, table: Map<Seq<char>, Seq<char>> },
    /// An unbound macro reference to this name.
    Unbound { name: Seq<char> },
    /// A define directive line that does not match the grammar.
    Malformed,
}

/// Walks `s` line by line: a define directive extends the table and emits
/// nothing; every other line is emitted with its macro references
/// substituted against the table as of that line.
pub open spec fn defines_spec(s: Seq<char>, t: Map<Seq<char>, Seq<char>>) -> DefOut
    decreases s.len(),
        via defines_spec_dec
{
    if s.len() == 0 {
        DefOut::Done { text: Seq::empty(), table: t }
    } else {
        let le = line_end_spec(s, 0);
        let line = s.take(le);
        let rest = if le < s.len() {
            s.skip(le + 1)
        } else {
            Seq::empty()
        };
        match define_line_spec(line) {
            DefDirective::Bad => DefOut::Malformed,
            DefDirective::Yes(n, v) => defines_spec(rest, t.insert(n, v)),
            DefDirective::No => match subst_spec(line, t) {
                SubstOut::Unbound(n) => DefOut::Unbound { name: n },
                SubstOut::Done(l2) => match defines_spec(rest, t) {
                    DefOut::Done { text: t2, table: tf } => DefOut::Done {
                        text: l2 + seq!['\n'] + t2,
                        table: tf,
                    },
                    e => e,
                },
            },
        }
    }
}

#[via_fn]
proof fn defines_spec_dec(s: Seq<char>, t: Map<Seq<char>, Seq<char>>) {
    if s.len() > 0 {
        lemma_line_end_bounds(s);
    }
}

/// Runs the define-capture and substitution pass over `text`, extending
/// `table` in place.
pub fn apply_defines(text: &Vec<char>, table: &mut MacroTable) -> (r: Result<Vec<char>, SfzError>)
    ensures
        match r {
            Ok(out) => defines_spec(text@, old(table)@) == (DefOut::Done {
                text: out@,
                table: final(table)@,
            }),
            Err(SfzError::MacroUnbound { name, pos }) => defines_spec(text@, old(table)@)
                == (DefOut::Unbound { name: name@ }),
            Err(SfzError::MalformedDirective { pos }) => defines_spec(text@, old(table)@)
                is Malformed,
            Err(e) => false,
        },
{
    let mut out: Vec<char> = Vec::new();
    let mut p: usize = 0;
    proof {
        assert(text@.skip(0) =~= text@);
    }
    while p < text.len()
        invariant
            0 <= p <= text@.len(),
            ({
                let full = defines_spec(text@, old(table)@);
                match defines_spec(text@.skip(p as int), table@) {
                    DefOut::Done { text: t2, table: tf } => full == (DefOut::Done {
                        text: out@ + t2,
                        table: tf,
                    }),
                    e => full == e,
                }
            }),
        decreases text@.len() - p,
    {
        let ghost rem = text@.skip(p as int);
        let ghost t_before = table@;
        let e = take_to_newline(text, p);
        let line = copy_range(text, p, e);
        let next_p = if e < text.len() {
            e + 1
        } else {
            e
        };
        proof {
            crate::lexer::lemma_line_end_shift(text@, p as int, p as int);
            assert(line@ =~= rem.take(e - p));
            if e < text@.len() {
                assert(text@.skip(next_p as int) =~= rem.skip(e - p + 1));
            } else {
                assert(text@.skip(next_p as int) =~= Seq::<char>::empty());
            }
        }
        match parse_define_line(&line) {
            DefScan::Bad => {
                return Err(SfzError::MalformedDirective { pos: p });
            },
            DefScan::Binding(d) => {
                let ghost n = d.define_name@;
                let ghost v = d.define_value@;
                table.insert(d.define_name, d.define_value);
                proof {
                    assert(defines_spec(rem, t_before) == defines_spec(
                        text@.skip(next_p as int),
                        table@,
                    ));
                }
            },
            DefScan::NotDirective => {
                match subst_line(&line, table) {
                    Err(name) => {
                        return Err(SfzError::MacroUnbound { name, pos: p });
                    },
                    Ok(l2) => {
                        proof {
                            assert(defines_spec(rem, t_before) == match defines_spec(
                                text@.skip(next_p as int),
                                table@,
                            ) {
                                DefOut::Done { text: t2, table: tf } => DefOut::Done {
                                    text: l2@ + seq!['\n'] + t2,
                                    table: tf,
                                },
                                e => e,
                            });
                            match defines_spec(text@.skip(next_p as int), table@) {
                                DefOut::Done { text: t2, table: tf } => {
                                    assert(out@ + (l2@ + seq!['\n'] + t2) =~= (out@ + l2@ + seq![
                                        '\n',
                                    ]) + t2);
                                },
                                _ => {},
                            }
                        }
                        let ghost prev_out = out@;
                        extend_chars(&mut out, &l2);
                        out.push('\n');
                        proof {
                            assert(out@ =~= prev_out + l2@ + seq!['\n']);
                        }
                    },
                }
            },
        }
        p = next_p;
    }
    proof {
        assert(text@.skip(text@.len() as int) =~= Seq::<char>::empty());
        assert(out@ + Seq::<char>::empty() =~= out@);
    }
    Ok(out)
}

/// Everything preprocessing yields: the flattened substituted text, the
/// final macro table, and the resolved inclusion targets in encounter
/// order.
#[derive(Debug, Clone, PartialEq)]
pub struct PreprocessOutput {
    pub text: Vec<char>,
    pub table: MacroTable,
    pub inclusions: Vec<Vec<char>>,
}

/// Outcome of the whole preprocessing pipeline.
pub ghost enum PpOut {
    Done { text: Seq<char>, table: Map<Seq<char>, Seq<char>>, inclusions: Seq<Seq<char>> },
    Cycle { path: Seq<char> },
    NotFound { path: Seq<char> },
    Unbound { name: Seq<char> },
    Malformed,
}

/// Inclusion expansion under an empty chain, then define capture and macro
/// substitution over the flattened text with an initially empty table.
pub open spec fn preprocess_spec(s: Seq<char>, prov: Map<Seq<char>, Seq<char>>) -> PpOut {
    match expand_spec(s, prov, Seq::empty(), Seq::empty()) {
        ExpandOut::Done { text, spliced } => match defines_spec(text, Map::empty()) {
            DefOut::Done { text: t2, table } => PpOut::Done { text: t2, table, inclusions: spliced },
            DefOut::Unbound { name } => PpOut::Unbound { name },
            DefOut::Malformed => PpOut::Malformed,
        },
        ExpandOut::Cycle { path } => PpOut::Cycle { path },
        ExpandOut::NotFound { path } => PpOut::NotFound { path },
        ExpandOut::Malformed => PpOut::Malformed,
    }
}

/// Preprocesses `text` against `provider`: resolves every inclusion
/// directive (failing on a cycle or a missing document), captures every
/// define directive, and substitutes every macro reference once.
pub fn preprocess(text: &Vec<char>, provider: &ContentProvider) -> (r: Result<
    PreprocessOutput,
    SfzError,
>)
    ensures
        match r {
            Ok(o) => preprocess_spec(text@, provider@) == (PpOut::Done {
                text: o.text@,
                table: o.table@,
                inclusions: views_of(o.inclusions@),
            }),
            Err(SfzError::IncludeCycle { path }) => preprocess_spec(text@, provider@)
                == (PpOut::Cycle { path: path@ }),
            Err(SfzError::IncludeNotFound { path }) => preprocess_spec(text@, provider@)
                == (PpOut::NotFound { path: path@ }),
            Err(SfzError::MacroUnbound { name, pos }) => preprocess_spec(text@, provider@)
                == (PpOut::Unbound { name: name@ }),
            Err(SfzError::MalformedDirective { pos }) => preprocess_spec(text@, provider@)
                is Malformed,
            Err(e) => false,
        },
{
    proof {
        provider.lemma_finite();
        assert(wf_stack(provider@, views_of(Seq::<Vec<char>>::empty())));
    }
    let empty_dir: Vec<char> = Vec::new();
    let empty_stack: Vec<Vec<char>> = Vec::new();
    proof {
        assert(views_of(empty_stack@) =~= Seq::<Seq<char>>::empty());
        assert(text@.skip(0) =~= text@);
    }
    let (flat, inclusions) = match expand_from(text, 0, provider, &empty_dir, &empty_stack) {
        Ok(x) => x,
        Err(err) => {
            return Err(err);
        },
    };
    let mut table = MacroTable::new();
    let substituted = match apply_defines(&flat, &mut table) {
        Ok(x) => x,
        Err(err) => {
            return Err(err);
        },
    };
    Ok(PreprocessOutput { text: substituted, table, inclusions })
}

/// Every identifier character from `i` on makes the identifier run extend
/// to the end of the text.
pub proof fn lemma_ident_end_all(s: Seq<char>, i: int)
    requires
        0 <= i <= s.len(),
        forall|k: int| i <= k < s.len() ==> crate::lexer::ident_char(#[trigger] s[k]),
    ensures
        ident_end_spec(s, i) == s.len(),
    decreases s.len() - i,
{
    if i < s.len() {
        lemma_ident_end_all(s, i + 1);
    }
}

/// A bound macro reference is replaced by exactly its replacement text,
/// substituted once: the replacement is emitted verbatim and never
/// rescanned, so it comes out unchanged even where it itself contains the
/// `$` sigil.
pub proof fn lemma_substitute_once(name: Seq<char>, t: Map<Seq<char>, Seq<char>>)
    requires
        t.contains_key(name),
        name.len() > 0,
        forall|k: int| 0 <= k < name.len() ==> crate::lexer::ident_char(#[trigger] name[k]),
    ensures
        subst_spec(seq!['$'] + name, t) == SubstOut::Done(t[name]),
{
    let line = seq!['$'] + name;
    assert(line[0] == '$');
    assert(forall|k: int| 1 <= k < line.len() ==> crate::lexer::ident_char(#[trigger] line[k]));
    lemma_ident_end_all(line, 1);
    assert(line.subrange(1, line.len() as int) =~= name);
    assert(line.skip(line.len() as int) =~= Seq::<char>::empty());
    assert(subst_spec(line.skip(line.len() as int), t) == SubstOut::Done(Seq::<char>::empty()));
    assert(t[name] + Seq::<char>::empty() =~= t[name]);
}

/// Splicing follows textual order: when the first line of a document is an
/// inclusion directive and both the included document and the remainder
/// expand successfully, the whole expansion lists the directive's resolved
/// target first, then the targets spliced from inside it, then those of
/// the remaining lines, and the flattened text is the included document's
/// expansion followed by the remainder's.
pub proof fn lemma_inclusion_order(
    s: Seq<char>,
    prov: Map<Seq<char>, Seq<char>>,
    dir: Seq<char>,
    stack: Seq<Seq<char>>,
    t1: Seq<char>,
    i1: Seq<Seq<char>>,
    t2: Seq<char>,
    i2: Seq<Seq<char>>,
)
    requires
        wf_stack(prov, stack),
        s.len() > 0,
        inc_line_spec(s.take(line_end_spec(s, 0))) matches IncDirective::Yes(rel),
        !stack.contains(resolve_spec(dir, inc_line_spec(s.take(line_end_spec(s, 0)))->Yes_0)),
        prov.dom().contains(resolve_spec(dir, inc_line_spec(s.take(line_end_spec(s, 0)))->Yes_0)),
        ({
            let path = resolve_spec(dir, inc_line_spec(s.take(line_end_spec(s, 0)))->Yes_0);
            expand_spec(prov[path], prov, dir_of_spec(path), stack.push(path)) == (ExpandOut::Done {
                text: t1,
                spliced: i1,
            })
        }),
        ({
            let rest = if line_end_spec(s, 0) < s.len() {
                s.skip(line_end_spec(s, 0) + 1)
            } else {
                Seq::<char>::empty()
            };
            expand_spec(rest, prov, dir, stack) == (ExpandOut::Done { text: t2, spliced: i2 })
        }),
    ensures
        ({
            let path = resolve_spec(dir, inc_line_spec(s.take(line_end_spec(s, 0)))->Yes_0);
            expand_spec(s, prov, dir, stack) == (ExpandOut::Done {
                text: t1 + t2,
                spliced: seq![path] + i1 + i2,
            })
        }),
{
}

/// A document that asks again for a path already on the active inclusion
/// chain fails with `IncludeCycle` naming that path.
pub proof fn lemma_cycle_detected(
    s: Seq<char>,
    prov: Map<Seq<char>, Seq<char>>,
    dir: Seq<char>,
    stack: Seq<Seq<char>>,
)
    requires
        wf_stack(prov, stack),
        s.len() > 0,
        inc_line_spec(s.take(line_end_spec(s, 0))) matches IncDirective::Yes(rel),
        stack.contains(resolve_spec(dir, inc_line_spec(s.take(line_end_spec(s, 0)))->Yes_0)),
    ensures
        expand_spec(s, prov, dir, stack) == (ExpandOut::Cycle {
            path: resolve_spec(dir, inc_line_spec(s.take(line_end_spec(s, 0)))->Yes_0),
        }),
{
}

/// Two documents that each begin by including the other can never expand:
/// a document whose first line resolves to the first of them always fails
/// with `IncludeCycle`.
pub proof fn lemma_mutual_cycle(
    s: Seq<char>,
    prov: Map<Seq<char>, Seq<char>>,
    dir: Seq<char>,
    a: Seq<char>,
    b: Seq<char>,
)
    requires
        prov.dom().finite(),
        prov.dom().contains(a),
        prov.dom().contains(b),
        inc_line_spec(s.take(line_end_spec(s, 0))) matches IncDirective::Yes(rel) && resolve_spec(
            dir,
            rel,
        ) == a,
        s.len() > 0,
        ({
            let ca = prov[a];
            ca.len() > 0 && (inc_line_spec(ca.take(line_end_spec(ca, 0)))
                matches IncDirective::Yes(ra) && resolve_spec(dir_of_spec(a), ra) == b)
        }),
        ({
            let cb = prov[b];
            cb.len() > 0 && (inc_line_spec(cb.take(line_end_spec(cb, 0)))
                matches IncDirective::Yes(rb) && resolve_spec(dir_of_spec(b), rb) == a)
        }),
    ensures
        expand_spec(s, prov, dir, Seq::empty()) == (ExpandOut::Cycle { path: a }),
{
    let empty = Seq::<Seq<char>>::empty();
    assert(wf_stack(prov, empty));
    let sa = empty.push(a);
    lemma_free_decreases(prov, empty, a);
    if a == b {
        assert(sa.contains(a)) by {
            assert(sa[0] == a);
        };
        lemma_cycle_detected(prov[a], prov, dir_of_spec(a), sa);
    } else {
        assert(!sa.contains(b)) by {
            if sa.contains(b) {
                let i = choose|i: int| 0 <= i < sa.len() && sa[i] == b;
                assert(sa[0] == a);
            }
        };
        lemma_free_decreases(prov, sa, b);
        let sb = sa.push(b);
        assert(sb.contains(a)) by {
            assert(sb[0] == a);
        };
        lemma_cycle_detected(prov[b], prov, dir_of_spec(b), sb);
    }
}

} // verus!
