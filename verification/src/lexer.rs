//! Lexical primitives shared by every layer: identifier scanning, bare-value
//! scanning, quoted-value scanning, and whitespace handling.  All scanning is
//! done over `Vec<char>` with explicit positions, so every primitive's result
//! can be stated exactly over the view `Seq<char>`.

use vstd::prelude::*;
use vstd::string::StringSliceAdditionalSpecFns;

verus! {

/// Characters permitted inside an identifier: ASCII letters, digits and `_`.
pub open spec fn ident_char(c: char) -> bool {
    ('a' <= c && c <= 'z') || ('A' <= c && c <= 'Z') || ('0' <= c && c <= '9') || c == '_'
}

/// ASCII decimal digit.
pub open spec fn digit_char(c: char) -> bool {
    '0' <= c && c <= '9'
}

/// Whitespace as this format understands it: space, tab, carriage return,
/// line feed.
pub open spec fn space_char(c: char) -> bool {
    c == ' ' || c == '\t' || c == '\r' || c == '\n'
}

/// Whitespace that does not end a line.
pub open spec fn inline_space_char(c: char) -> bool {
    c == ' ' || c == '\t' || c == '\r'
}

/// Whether `c` may stand in an identifier (letter, digit or underscore).
pub fn is_alphanumeric_underscore(c: char) -> (r: bool)
    ensures
        r == ident_char(c),
{
    ('a' <= c && c <= 'z') || ('A' <= c && c <= 'Z') || ('0' <= c && c <= '9') || c == '_'
}

/// Whether `c` is an ASCII decimal digit.
pub fn is_digit_char(c: char) -> (r: bool)
    ensures
        r == digit_char(c),
{
    '0' <= c && c <= '9'
}

/// Whether `c` is whitespace.
pub fn is_space_char(c: char) -> (r: bool)
    ensures
        r == space_char(c),
{
    c == ' ' || c == '\t' || c == '\r' || c == '\n'
}

/// First position at or after `i` whose character fails `space_char`, or the
/// length of `s` if none does.
pub open spec fn skip_spaces_spec(s: Seq<char>, i: int) -> int
    decreases s.len() - i,
{
    if i < 0 || i >= s.len() {
        s.len() as int
    } else if space_char(s[i]) {
        skip_spaces_spec(s, i + 1)
    } else {
        i
    }
}

/// Advances over whitespace, returning the first non-whitespace position.
pub fn white_space(s: &Vec<char>, i: usize) -> (j: usize)
    requires
        i <= s@.len(),
    ensures
        j == skip_spaces_spec(s@, i as int),
        i <= j <= s@.len(),
        forall|k: int| i <= k < j ==> space_char(s@[k]),
        j < s@.len() ==> !space_char(s@[j as int]),
{
    let mut j: usize = i;
    while j < s.len() && is_space_char(s[j])
        invariant
            i <= j <= s@.len(),
            skip_spaces_spec(s@, i as int) == skip_spaces_spec(s@, j as int),
            forall|k: int| i <= k < j ==> space_char(s@[k]),
        decreases s@.len() - j,
    {
        j += 1;
    }
    proof {
        reveal_with_fuel(skip_spaces_spec, 2);
    }
    j
}

/// End of the maximal run of identifier characters starting at `i`.
pub open spec fn ident_end_spec(s: Seq<char>, i: int) -> int
    decreases s.len() - i,
{
    if i < 0 || i >= s.len() {
        s.len() as int
    } else if ident_char(s[i]) {
        ident_end_spec(s, i + 1)
    } else {
        i
    }
}

/// Skips leading whitespace, then consumes a maximal (possibly empty) run of
/// identifier characters.  Returns the run's bounds `(start, end)`.
pub fn parse_identifier(s: &Vec<char>, i: usize) -> (r: (usize, usize))
    requires
        i <= s@.len(),
    ensures
        r.0 == skip_spaces_spec(s@, i as int),
        r.1 == ident_end_spec(s@, r.0 as int),
        i <= r.0 <= r.1 <= s@.len(),
        forall|k: int| r.0 <= k < r.1 ==> ident_char(s@[k]),
        r.1 < s@.len() ==> !ident_char(s@[r.1 as int]),
{
    let start = white_space(s, i);
    let mut j: usize = start;
    while j < s.len() && is_alphanumeric_underscore(s[j])
        invariant
            start <= j <= s@.len(),
            ident_end_spec(s@, start as int) == ident_end_spec(s@, j as int),
            forall|k: int| start <= k < j ==> ident_char(s@[k]),
        decreases s@.len() - j,
    {
        j += 1;
    }
    proof {
        reveal_with_fuel(ident_end_spec, 2);
    }
    (start, j)
}

/// End of the maximal run of bare-value characters (neither whitespace nor
/// `=`) starting at `i`.
pub open spec fn bare_end_spec(s: Seq<char>, i: int) -> int
    decreases s.len() - i,
{
    if i < 0 || i >= s.len() {
        s.len() as int
    } else if !space_char(s[i]) && s[i] != '=' {
        bare_end_spec(s, i + 1)
    } else {
        i
    }
}

/// Consumes a maximal run of non-whitespace, non-`=` characters.
pub fn parse_value(s: &Vec<char>, i: usize) -> (j: usize)
    requires
        i <= s@.len(),
    ensures
        j == bare_end_spec(s@, i as int),
        i <= j <= s@.len(),
        forall|k: int| i <= k < j ==> !space_char(s@[k]) && s@[k] != '=',
        j < s@.len() ==> space_char(s@[j as int]) || s@[j as int] == '=',
{
    let mut j: usize = i;
    while j < s.len() && !is_space_char(s[j]) && s[j] != '='
        invariant
            i <= j <= s@.len(),
            bare_end_spec(s@, i as int) == bare_end_spec(s@, j as int),
            forall|k: int| i <= k < j ==> !space_char(s@[k]) && s@[k] != '=',
        decreases s@.len() - j,
    {
        j += 1;
    }
    proof {
        reveal_with_fuel(bare_end_spec, 2);
    }
    j
}

/// First position at or after `i` holding a line feed, or the length of `s`.
pub open spec fn line_end_spec(s: Seq<char>, i: int) -> int
    decreases s.len() - i,
{
    if i < 0 || i >= s.len() {
        s.len() as int
    } else if s[i] == '\n' {
        i
    } else {
        line_end_spec(s, i + 1)
    }
}

/// Consumes up to (not including) the next line feed.
pub fn take_to_newline(s: &Vec<char>, i: usize) -> (j: usize)
    requires
        i <= s@.len(),
    ensures
        j == line_end_spec(s@, i as int),
        i <= j <= s@.len(),
        forall|k: int| i <= k < j ==> s@[k] != '\n',
        j < s@.len() ==> s@[j as int] == '\n',
{
    let mut j: usize = i;
    while j < s.len() && s[j] != '\n'
        invariant
            i <= j <= s@.len(),
            line_end_spec(s@, i as int) == line_end_spec(s@, j as int),
            forall|k: int| i <= k < j ==> s@[k] != '\n',
        decreases s@.len() - j,
    {
        j += 1;
    }
    proof {
        reveal_with_fuel(line_end_spec, 2);
    }
    j
}

/// Whether the characters of `s` from `i` on start with `pat`.
pub open spec fn starts_with_at(s: Seq<char>, i: int, pat: Seq<char>) -> bool {
    0 <= i && i + pat.len() <= s.len() && s.subrange(i, i + pat.len()) =~= pat
}

/// Compares the slice of `s` beginning at `i` against an ASCII literal.
pub fn starts_with_lit(s: &Vec<char>, i: usize, pat: &str) -> (r: bool)
    requires
        i <= s@.len(),
        pat.is_ascii(),
    ensures
        r == starts_with_at(s@, i as int, pat@),
{
    let bytes = pat.as_bytes();
    let slen = s.len();
    proof {
        vstd::string::is_ascii_spec_bytes(pat);
    }
    if slen - i < bytes.len() {
        return false;
    }
    let n = bytes.len();
    let mut k: usize = 0;
    while k < n
        invariant
            0 <= k <= n,
            n == pat@.len(),
            i + n <= s@.len(),
            s@.len() == slen,
            bytes@ == pat.spec_bytes(),
            pat.is_ascii(),
            forall|m: int| 0 <= m < n ==> pat@[m] as u8 == bytes@[m] && pat@[m] <= '\u{7f}',
            forall|m: int| 0 <= m < k ==> s@[i + m] == pat@[m],
        decreases n - k,
    {
        let b = bytes[k];
        let c = s[i + k];
        proof {
            let pc = pat@[k as int];
            assert(pc as u8 == b);
            assert(pc as u32 <= 127) by {
                assert(pc <= '\u{7f}');
            };
            assert(b as u32 == pc as u32);
            vstd::utf8::char_u32_cast(pc, pc as u32);
            vstd::utf8::char_u32_cast(c, c as u32);
        }
        if !(c as u32 == b as u32) {
            proof {
                assert(s@[i + k] != pat@[k as int]);
                assert(!(s@.subrange(i as int, i + n) =~= pat@));
            }
            return false;
        }
        proof {
            assert(s@[i + k] == pat@[k as int]);
        }
        k += 1;
    }
    proof {
        assert(s@.subrange(i as int, i + n) =~= pat@);
    }
    true
}

/// Whether `s` is exactly the ASCII literal `pat`.
pub fn chars_eq_lit(s: &Vec<char>, pat: &str) -> (r: bool)
    requires
        pat.is_ascii(),
    ensures
        r == (s@ =~= pat@),
{
    proof {
        vstd::string::is_ascii_spec_bytes(pat);
    }
    if s.len() != pat.as_bytes().len() {
        return false;
    }
    starts_with_lit(s, 0, pat)
}

/// Whether two character vectors hold the same characters.
pub fn chars_eq(a: &Vec<char>, b: &Vec<char>) -> (r: bool)
    ensures
        r == (a@ =~= b@),
{
    if a.len() != b.len() {
        return false;
    }
    let n = a.len();
    let mut k: usize = 0;
    while k < n
        invariant
            0 <= k <= n,
            n == a@.len() && n == b@.len(),
            forall|m: int| 0 <= m < k ==> a@[m] == b@[m],
        decreases n - k,
    {
        if a[k] != b[k] {
            return false;
        }
        k += 1;
    }
    true
}

/// Copies `s[lo..hi]` into a fresh vector.
pub fn copy_range(s: &Vec<char>, lo: usize, hi: usize) -> (r: Vec<char>)
    requires
        lo <= hi <= s@.len(),
    ensures
        r@ == s@.subrange(lo as int, hi as int),
{
    let mut r: Vec<char> = Vec::new();
    let mut k: usize = lo;
    while k < hi
        invariant
            lo <= k <= hi <= s@.len(),
            r@ =~= s@.subrange(lo as int, k as int),
        decreases hi - k,
    {
        r.push(s[k]);
        k += 1;
    }
    proof {
        assert(r@ =~= s@.subrange(lo as int, hi as int));
    }
    r
}

/// Result of scanning a quoted value from just after the opening quote:
/// the unescaped content and the position after the closing quote.  A
/// backslash escapes a quote or a backslash; before any other character it
/// stands for itself.  `None` when no closing quote follows.
pub open spec fn quoted_scan_spec(s: Seq<char>, i: int) -> Option<(Seq<char>, int)>
    decreases s.len() - i,
{
    if i < 0 || i >= s.len() {
        None
    } else if s[i] == '"' {
        Some((Seq::empty(), i + 1))
    } else if s[i] == '\\' && i + 1 < s.len() && (s[i + 1] == '"' || s[i + 1] == '\\') {
        match quoted_scan_spec(s, i + 2) {
            Some((t, e)) => Some((seq![s[i + 1]] + t, e)),
            None => None,
        }
    } else {
        match quoted_scan_spec(s, i + 1) {
            Some((t, e)) => Some((seq![s[i]] + t, e)),
            None => None,
        }
    }
}

/// Position bounds of a successful quoted scan.
pub proof fn lemma_quoted_scan_bounds(s: Seq<char>, i: int)
    ensures
        match quoted_scan_spec(s, i) {
            Some((t, e)) => i < e <= s.len(),
            None => true,
        },
    decreases s.len() - i,
{
    if 0 <= i && i < s.len() && s[i] != '"' {
        if s[i] == '\\' && i + 1 < s.len() && (s[i + 1] == '"' || s[i + 1] == '\\') {
            lemma_quoted_scan_bounds(s, i + 2);
        } else {
            lemma_quoted_scan_bounds(s, i + 1);
        }
    }
}

/// Scans a quoted value beginning just after its opening quote; returns the
/// unescaped content and the position after the closing quote.
pub fn scan_quoted_value(s: &Vec<char>, i: usize) -> (r: Option<(Vec<char>, usize)>)
    requires
        i <= s@.len(),
    ensures
        match r {
            Some((v, e)) => quoted_scan_spec(s@, i as int) == Some((v@, e as int)) && i < e
                <= s@.len(),
            None => quoted_scan_spec(s@, i as int) is None,
        },
{
    let mut acc: Vec<char> = Vec::new();
    let mut j: usize = i;
    proof {
        lemma_quoted_scan_bounds(s@, i as int);
        match quoted_scan_spec(s@, i as int) {
            Some((t, e)) => {
                assert(Seq::<char>::empty() + t =~= t);
            },
            None => {},
        }
    }
    loop
        invariant
            i <= j <= s@.len(),
            ({
                let full = quoted_scan_spec(s@, i as int);
                let cur = quoted_scan_spec(s@, j as int);
                match cur {
                    Some((t, e)) => full == Some((acc@ + t, e)) && i < e,
                    None => full is None,
                }
            }),
        decreases s@.len() - j,
    {
        if j >= s.len() {
            return None;
        }
        let c = s[j];
        if c == '"' {
            proof {
                assert(acc@ + Seq::<char>::empty() =~= acc@);
            }
            return Some((acc, j + 1));
        }
        if c == '\\' && j + 1 < s.len() && (s[j + 1] == '"' || s[j + 1] == '\\') {
            proof {
                match quoted_scan_spec(s@, j as int + 2) {
                    Some((t, e)) => {
                        assert(acc@ + (seq![s@[j + 1]] + t) =~= acc@.push(s@[j + 1]) + t);
                    },
                    None => {},
                }
            }
            acc.push(s[j + 1]);
            j += 2;
        } else {
            proof {
                match quoted_scan_spec(s@, j as int + 1) {
                    Some((t, e)) => {
                        assert(acc@ + (seq![s@[j as int]] + t) =~= acc@.push(s@[j as int]) + t);
                    },
                    None => {},
                }
            }
            acc.push(c);
            j += 1;
        }
    }
}

/// Appends the characters of `src` to `dst`.
pub fn extend_chars(dst: &mut Vec<char>, src: &Vec<char>)
    ensures
        final(dst)@ == old(dst)@ + src@,
{
    let mut k: usize = 0;
    while k < src.len()
        invariant
            0 <= k <= src@.len(),
            dst@ =~= old(dst)@ + src@.subrange(0, k as int),
        decreases src@.len() - k,
    {
        dst.push(src[k]);
        k += 1;
    }
    proof {
        assert(old(dst)@ + src@.subrange(0, src@.len() as int) =~= old(dst)@ + src@);
    }
}

/// Shifting a scan start commutes with dropping a prefix: the line end seen
/// from inside `s.skip(p)` is the line end of `s` moved left by `p`.
pub proof fn lemma_line_end_shift(s: Seq<char>, p: int, q: int)
    requires
        0 <= p <= q <= s.len(),
    ensures
        line_end_spec(s.skip(p), q - p) == line_end_spec(s, q) - p,
    decreases s.len() - q,
{
    if q < s.len() {
        assert(s.skip(p)[q - p] == s[q]);
        if s[q] != '\n' {
            lemma_line_end_shift(s, p, q + 1);
        }
    }
}

/// End of the identifier run beginning exactly at `i` (no whitespace skip).
pub fn ident_run_end(s: &Vec<char>, i: usize) -> (j: usize)
    requires
        i <= s@.len(),
    ensures
        j == ident_end_spec(s@, i as int),
        i <= j <= s@.len(),
{
    let mut j: usize = i;
    while j < s.len() && is_alphanumeric_underscore(s[j])
        invariant
            i <= j <= s@.len(),
            ident_end_spec(s@, i as int) == ident_end_spec(s@, j as int),
        decreases s@.len() - j,
    {
        j += 1;
    }
    proof {
        reveal_with_fuel(ident_end_spec, 2);
    }
    j
}

/// The identifier-run end lies between its start and the end of the text.
pub proof fn lemma_ident_end_bounds(s: Seq<char>, i: int)
    requires
        0 <= i <= s.len(),
    ensures
        i <= ident_end_spec(s, i) <= s.len(),
    decreases s.len() - i,
{
    if i < s.len() && ident_char(s[i]) {
        lemma_ident_end_bounds(s, i + 1);
    }
}

/// Shifting the scan start commutes with dropping a prefix, for identifier
/// runs.
pub proof fn lemma_ident_end_shift(s: Seq<char>, p: int, q: int)
    requires
        0 <= p <= q <= s.len(),
    ensures
        ident_end_spec(s.skip(p), q - p) == ident_end_spec(s, q) - p,
    decreases s.len() - q,
{
    if q < s.len() {
        assert(s.skip(p)[q - p] == s[q]);
        if ident_char(s[q]) {
            lemma_ident_end_shift(s, p, q + 1);
        }
    }
}

} // verus!
