//! Scanner primitives: whitespace and comment skipping, and the name,
//! number, text and keyword tokens that every grammar rule consumes.
//!
//! Each executable primitive is proved equal to a spec-level definition
//! over the source text viewed as a `Seq<char>`. Scanner primitives never
//! fail on their own: absence of a match is reported to the caller as an
//! ordered-choice alternative failing, recorded in a `ParseError` so that
//! the furthest failure position wins.

use vstd::prelude::*;
use crate::ast::{Expected, ParseError, Span, TextToken};

verus! {

// ---------------------------------------------------------------------------
// Character classes.
// ---------------------------------------------------------------------------

/// Whitespace: space, tab, carriage return, newline. Newlines separate
/// tokens exactly as other whitespace does.
pub open spec fn is_ws(c: char) -> bool {
    c == ' ' || c == '\t' || c == '\r' || c == '\n'
}

/// Characters of a name token: ASCII letters and digits.
pub open spec fn is_name_char(c: char) -> bool {
    ('a' <= c && c <= 'z') || ('A' <= c && c <= 'Z') || ('0' <= c && c <= '9')
}

pub open spec fn is_digit(c: char) -> bool {
    '0' <= c && c <= '9'
}

/// The reserved punctuation set. A text character is any character outside
/// this set, or any character at all when written behind a backslash.
pub open spec fn is_reserved(c: char) -> bool {
    c == ',' || c == '.' || c == '=' || c == '>' || c == '(' || c == ')' || c == '*' || c == '['
        || c == ']' || c == '{' || c == '}' || c == '+' || c == '?' || c == '/' || c == '-'
        || c == '_' || c == ':' || c == '!' || c == '~' || c == '$' || c == '@' || c == '#'
        || c == '&' || c == '\\' || is_ws(c)
}

pub fn ws_char(c: char) -> (r: bool)
    ensures
        r == is_ws(c),
{
    c == ' ' || c == '\t' || c == '\r' || c == '\n'
}

pub fn name_char(c: char) -> (r: bool)
    ensures
        r == is_name_char(c),
{
    ('a' <= c && c <= 'z') || ('A' <= c && c <= 'Z') || ('0' <= c && c <= '9')
}

pub fn digit_char(c: char) -> (r: bool)
    ensures
        r == is_digit(c),
{
    '0' <= c && c <= '9'
}

pub fn reserved_char(c: char) -> (r: bool)
    ensures
        r == is_reserved(c),
{
    c == ',' || c == '.' || c == '=' || c == '>' || c == '(' || c == ')' || c == '*' || c == '['
        || c == ']' || c == '{' || c == '}' || c == '+' || c == '?' || c == '/' || c == '-'
        || c == '_' || c == ':' || c == '!' || c == '~' || c == '$' || c == '@' || c == '#'
        || c == '&' || c == '\\' || ws_char(c)
}

// ---------------------------------------------------------------------------
// Failure recording.
// ---------------------------------------------------------------------------

/// The error after recording a failed expectation at `pos`: the furthest
/// position wins; equally far expectations accumulate; nearer failures
/// leave the record unchanged.
pub open spec fn spec_noted(e0: ParseError, e1: ParseError, pos: int, what: Expected) -> bool {
    &&& e1.pos == (if pos > e0.pos {
        pos
    } else {
        e0.pos as int
    })
    &&& (pos > e0.pos ==> e1.expected@ == seq![what])
    &&& (pos == e0.pos ==> e1.expected@ == e0.expected@.push(what))
    &&& (pos < e0.pos ==> e1.expected@ == e0.expected@)
}

/// Record that an alternative failed at `pos` wanting `what`. The furthest
/// failure position wins; equally far expectations accumulate.
pub fn note(err: &mut ParseError, pos: usize, what: Expected)
    ensures
        spec_noted(*old(err), *final(err), pos as int, what),
{
    if pos > err.pos {
        err.pos = pos;
        let mut v: Vec<Expected> = Vec::new();
        v.push(what);
        err.expected = v;
    } else if pos == err.pos {
        err.expected.push(what);
    }
}

// ---------------------------------------------------------------------------
// Whitespace and comments.
// ---------------------------------------------------------------------------

/// Position after skipping whitespace and `#`-to-end-of-line comments,
/// starting at `pos`; `in_comment` says whether `pos` is inside a comment.
pub open spec fn spec_skip_from(s: Seq<char>, pos: int, in_comment: bool) -> int
    decreases s.len() - pos,
{
    if !(0 <= pos < s.len()) {
        pos
    } else if in_comment {
        if s[pos] == '\n' || s[pos] == '\r' {
            spec_skip_from(s, pos + 1, false)
        } else {
            spec_skip_from(s, pos + 1, true)
        }
    } else if is_ws(s[pos]) {
        spec_skip_from(s, pos + 1, false)
    } else if s[pos] == '#' {
        spec_skip_from(s, pos + 1, true)
    } else {
        pos
    }
}

/// Position after the inter-token separation at `pos`: any run of
/// whitespace and comments, possibly empty.
pub open spec fn spec_skip(s: Seq<char>, pos: int) -> int {
    spec_skip_from(s, pos, false)
}

pub proof fn lemma_skip_from_bounds(s: Seq<char>, pos: int, in_comment: bool)
    requires
        0 <= pos <= s.len(),
    ensures
        pos <= spec_skip_from(s, pos, in_comment) <= s.len(),
    decreases s.len() - pos,
{
    if 0 <= pos < s.len() {
        if in_comment || is_ws(s[pos]) || s[pos] == '#' {
            lemma_skip_from_bounds(s, pos + 1, !(is_ws(s[pos]) && !in_comment) && !(in_comment && (
            s[pos] == '\n' || s[pos] == '\r')));
            lemma_skip_from_bounds(s, pos + 1, true);
            lemma_skip_from_bounds(s, pos + 1, false);
        }
    }
}

/// Skip whitespace and comments.
pub fn skip(s: &[char], pos: usize) -> (r: usize)
    requires
        pos <= s@.len(),
    ensures
        r == spec_skip(s@, pos as int),
        pos <= r <= s@.len(),
{
    proof {
        lemma_skip_from_bounds(s@, pos as int, false);
    }
    let mut i: usize = pos;
    let mut in_comment: bool = false;
    loop
        invariant
            pos <= i <= s@.len(),
            spec_skip_from(s@, pos as int, false) == spec_skip_from(s@, i as int, in_comment),
            spec_skip_from(s@, i as int, in_comment) <= s@.len(),
        decreases s@.len() - i,
    {
        if i >= s.len() {
            return i;
        }
        let c = s[i];
        if in_comment {
            if c == '\n' || c == '\r' {
                in_comment = false;
            }
            i = i + 1;
        } else if ws_char(c) {
            i = i + 1;
        } else if c == '#' {
            in_comment = true;
            i = i + 1;
        } else {
            return i;
        }
    }
}

// ---------------------------------------------------------------------------
// Name token.
// ---------------------------------------------------------------------------

/// End of the maximal run of name characters starting at `pos`.
pub open spec fn spec_name_end(s: Seq<char>, pos: int) -> int
    decreases s.len() - pos,
{
    if 0 <= pos < s.len() && is_name_char(s[pos]) {
        spec_name_end(s, pos + 1)
    } else {
        pos
    }
}

pub proof fn lemma_name_end_bounds(s: Seq<char>, pos: int)
    requires
        0 <= pos <= s.len(),
    ensures
        pos <= spec_name_end(s, pos) <= s.len(),
    decreases s.len() - pos,
{
    if 0 <= pos < s.len() && is_name_char(s[pos]) {
        lemma_name_end_bounds(s, pos + 1);
    }
}

/// A name: the maximal non-empty run of ASCII alphanumerics at `pos`.
pub open spec fn spec_name(s: Seq<char>, pos: int) -> Option<(Seq<char>, int)> {
    let end = spec_name_end(s, pos);
    if end > pos {
        Some((s.subrange(pos, end), end))
    } else {
        None
    }
}

pub fn parse_name(s: &[char], pos: usize, err: &mut ParseError) -> (r: Option<(Vec<char>, usize)>)
    requires
        pos <= s@.len(),
    ensures
        match (r, spec_name(s@, pos as int)) {
            (Some((v, end)), Some((mv, mend))) => v@ == mv && end == mend && pos < end <= s@.len(),
            (None, None) => true,
            _ => false,
        },
        r is Some ==> *final(err) == *old(err),
        r is None ==> spec_noted(*old(err), *final(err), pos as int, Expected::Name),
{
    proof {
        lemma_name_end_bounds(s@, pos as int);
    }
    let mut end: usize = pos;
    while end < s.len() && name_char(s[end])
        invariant
            pos <= end <= s@.len(),
            spec_name_end(s@, pos as int) == spec_name_end(s@, end as int),
            forall|j: int| pos <= j < end ==> is_name_char(s@[j]),
            *err == *old(err),
        decreases s@.len() - end,
    {
        end = end + 1;
    }
    assert(spec_name_end(s@, pos as int) == end);
    if end == pos {
        note(err, pos, Expected::Name);
        return None;
    }
    let mut v: Vec<char> = Vec::new();
    let mut i: usize = pos;
    while i < end
        invariant
            pos <= i <= end <= s@.len(),
            v@ == s@.subrange(pos as int, i as int),
            *err == *old(err),
        decreases end - i,
    {
        v.push(s[i]);
        proof {
            assert(v@ =~= s@.subrange(pos as int, i as int + 1));
        }
        i = i + 1;
    }
    Some((v, end))
}

// ---------------------------------------------------------------------------
// Number token.
// ---------------------------------------------------------------------------

pub open spec fn spec_digits_end(s: Seq<char>, pos: int) -> int
    decreases s.len() - pos,
{
    if 0 <= pos < s.len() && is_digit(s[pos]) {
        spec_digits_end(s, pos + 1)
    } else {
        pos
    }
}

pub proof fn lemma_digits_end_bounds(s: Seq<char>, pos: int)
    requires
        0 <= pos <= s.len(),
    ensures
        pos <= spec_digits_end(s, pos) <= s.len(),
    decreases s.len() - pos,
{
    if 0 <= pos < s.len() && is_digit(s[pos]) {
        lemma_digits_end_bounds(s, pos + 1);
    }
}

pub open spec fn digit_val(c: char) -> nat {
    (c as nat - '0' as nat) as nat
}

/// Value of the digit run `s[pos..end)` read in base ten.
pub open spec fn spec_digits_val(s: Seq<char>, pos: int, end: int) -> nat
    decreases end - pos,
{
    if end <= pos {
        0
    } else {
        spec_digits_val(s, pos, end - 1) * 10 + digit_val(s[end - 1])
    }
}

/// A number: a non-empty run of digits whose base-ten value fits in a
/// machine word.
pub open spec fn spec_number(s: Seq<char>, pos: int) -> Option<(u64, int)> {
    let end = spec_digits_end(s, pos);
    if end > pos && spec_digits_val(s, pos, end) <= u64::MAX {
        Some((spec_digits_val(s, pos, end) as u64, end))
    } else {
        None
    }
}

proof fn lemma_digits_val_step_ge(s: Seq<char>, pos: int, end: int)
    requires
        pos <= end,
    ensures
        spec_digits_val(s, pos, end) >= spec_digits_val(s, pos, end - 1),
{
    if end > pos {
        assert(spec_digits_val(s, pos, end) == spec_digits_val(s, pos, end - 1) * 10 + digit_val(
            s[end - 1],
        ));
    }
}

proof fn lemma_digits_val_monotone(s: Seq<char>, pos: int, mid: int, end: int)
    requires
        pos <= mid <= end,
    ensures
        spec_digits_val(s, pos, end) >= spec_digits_val(s, pos, mid),
    decreases end - mid,
{
    if mid < end {
        lemma_digits_val_monotone(s, pos, mid + 1, end);
        lemma_digits_val_step_ge(s, pos, mid + 1);
    }
}

pub fn parse_number(s: &[char], pos: usize, err: &mut ParseError) -> (r: Option<(u64, usize)>)
    requires
        pos <= s@.len(),
    ensures
        match (r, spec_number(s@, pos as int)) {
            (Some((v, end)), Some((mv, mend))) => v == mv && end == mend && pos < end <= s@.len(),
            (None, None) => true,
            _ => false,
        },
{
    proof {
        lemma_digits_end_bounds(s@, pos as int);
    }
    let mut end: usize = pos;
    while end < s.len() && digit_char(s[end])
        invariant
            pos <= end <= s@.len(),
            spec_digits_end(s@, pos as int) == spec_digits_end(s@, end as int),
            forall|j: int| pos <= j < end ==> is_digit(s@[j]),
        decreases s@.len() - end,
    {
        end = end + 1;
    }
    assert(spec_digits_end(s@, pos as int) == end);
    if end == pos {
        note(err, pos, Expected::Number);
        return None;
    }
    let ghost gend = end as int;
    let mut val: u64 = 0;
    let mut i: usize = pos;
    while i < end
        invariant
            pos <= i <= end <= s@.len(),
            end as int == gend,
            spec_digits_end(s@, pos as int) == gend,
            forall|j: int| pos <= j < end ==> is_digit(s@[j]),
            val == spec_digits_val(s@, pos as int, i as int),
        decreases end - i,
    {
        let c = s[i];
        let d: u64 = (c as u32 as u64) - ('0' as u32 as u64);
        assert(d == digit_val(s@[i as int]));
        assert(d <= 9);
        if val > (u64::MAX - d) / 10 {
            proof {
                assert(spec_digits_val(s@, pos as int, i as int + 1) == val * 10 + d);
                assert(val * 10 + d > u64::MAX);
                lemma_digits_val_monotone(s@, pos as int, i as int + 1, gend);
            }
            note(err, pos, Expected::Number);
            return None;
        }
        val = val * 10 + d;
        proof {
            assert(val == spec_digits_val(s@, pos as int, i as int + 1));
        }
        i = i + 1;
    }
    Some((val, end))
}

// ---------------------------------------------------------------------------
// Text characters and text runs.
// ---------------------------------------------------------------------------

/// One literal text character at `pos`: a backslash escape (the escape
/// lifts the following character out of the reserved set), or any single
/// non-reserved character.
pub open spec fn spec_text_char(s: Seq<char>, pos: int) -> Option<(char, int)> {
    if 0 <= pos && pos < s.len() && s[pos] == '\\' && pos + 1 < s.len() {
        Some((s[pos + 1], pos + 2))
    } else if 0 <= pos && pos < s.len() && !is_reserved(s[pos]) && s[pos] != '\\' {
        Some((s[pos], pos + 1))
    } else {
        None
    }
}

pub fn parse_text_char(s: &[char], pos: usize, err: &mut ParseError) -> (r: Option<(char, usize)>)
    requires
        pos <= s@.len(),
    ensures
        match (r, spec_text_char(s@, pos as int)) {
            (Some((c, end)), Some((mc, mend))) => c == mc && end == mend && pos < end <= s@.len(),
            (None, None) => true,
            _ => false,
        },
        r is Some ==> *final(err) == *old(err),
        r is None ==> spec_noted(*old(err), *final(err), pos as int, Expected::Text),
{
    if pos < s.len() && s[pos] == '\\' && pos + 1 < s.len() {
        Some((s[pos + 1], pos + 2))
    } else if pos < s.len() && !reserved_char(s[pos]) {
        Some((s[pos], pos + 1))
    } else {
        note(err, pos, Expected::Text);
        None
    }
}

/// The maximal run of text characters at `pos`: its characters (with
/// escapes resolved) and its end position.
pub open spec fn spec_text_run(s: Seq<char>, pos: int) -> (Seq<char>, int)
    decreases s.len() - pos,
{
    match spec_text_char(s, pos) {
        Some((c, p2)) => {
            if p2 <= s.len() {
                let (rest, end) = spec_text_run(s, p2);
                (seq![c] + rest, end)
            } else {
                (seq![c], p2)
            }
        },
        None => (Seq::empty(), pos),
    }
}

pub proof fn lemma_text_run_bounds(s: Seq<char>, pos: int)
    requires
        0 <= pos <= s.len(),
    ensures
        pos <= spec_text_run(s, pos).1 <= s.len(),
    decreases s.len() - pos,
{
    match spec_text_char(s, pos) {
        Some((c, p2)) => {
            lemma_text_run_bounds(s, p2);
        },
        None => {},
    }
}

/// A text token in declaration contexts: a maximal non-empty text run,
/// then an optional `!` negation mark.
pub open spec fn spec_text_token(s: Seq<char>, pos: int) -> Option<(Seq<char>, bool, int)> {
    let (content, end) = spec_text_run(s, pos);
    if content.len() == 0 {
        None
    } else if 0 <= end < s.len() && s[end] == '!' {
        Some((content, true, end + 1))
    } else {
        Some((content, false, end))
    }
}

pub fn parse_text_token(s: &[char], pos: usize, err: &mut ParseError) -> (r: Option<TextToken>)
    requires
        pos <= s@.len(),
    ensures
        match (r, spec_text_token(s@, pos as int)) {
            (Some(t), Some((mc, mneg, mend))) => t.content@ == mc && t.negated == mneg
                && t.span.hi == mend && t.span.lo == pos && pos < t.span.hi <= s@.len(),
            (None, None) => true,
            _ => false,
        },
{
    proof {
        lemma_text_run_bounds(s@, pos as int);
    }
    let mut content: Vec<char> = Vec::new();
    let mut i: usize = pos;
    loop
        invariant
            pos <= i <= s@.len(),
            spec_text_run(s@, pos as int).0 == content@ + spec_text_run(s@, i as int).0,
            spec_text_run(s@, pos as int).1 == spec_text_run(s@, i as int).1,
        decreases s@.len() - i,
    {
        let mut scratch = ParseError { pos: 0, expected: Vec::new() };
        match parse_text_char(s, i, &mut scratch) {
            Some((c, p2)) => {
                content.push(c);
                proof {
                    lemma_text_run_bounds(s@, p2 as int);
                    assert(spec_text_run(s@, pos as int).0 =~= content@ + spec_text_run(
                        s@,
                        p2 as int,
                    ).0);
                }
                i = p2;
            },
            None => {
                proof {
                    assert(spec_text_run(s@, pos as int).0 =~= content@);
                }
                let end: usize = i;
                if content.len() == 0 {
                    note(err, pos, Expected::Text);
                    return None;
                }
                if end < s.len() && s[end] == '!' {
                    return Some(
                        TextToken { content, negated: true, span: Span { lo: pos, hi: end + 1 } },
                    );
                } else {
                    return Some(
                        TextToken { content, negated: false, span: Span { lo: pos, hi: end } },
                    );
                }
            },
        }
    }
}

// ---------------------------------------------------------------------------
// Keywords and punctuation.
// ---------------------------------------------------------------------------

/// Keyword first letters match exactly, or with the source in lower case
/// where the keyword is given in upper case: keywords are case-insensitive
/// at the first letter only.
pub open spec fn kw_first_match(c: char, k: char) -> bool {
    c == k || ('A' <= k && k <= 'Z' && c as u32 == k as u32 + 32)
}

/// A keyword `kw` at `pos`. Where the keyword ends in a name character it
/// must not be followed by another name character, so that a keyword never
/// swallows the head of a longer name.
pub open spec fn spec_kw(s: Seq<char>, pos: int, kw: Seq<char>) -> Option<int> {
    if kw.len() > 0 && 0 <= pos && pos + kw.len() <= s.len() && kw_first_match(s[pos], kw[0])
        && (forall|i: int| 1 <= i < kw.len() ==> s[pos + i] == kw[i]) && (is_name_char(
        kw[kw.len() - 1],
    ) ==> (pos + kw.len() == s.len() || !is_name_char(s[pos + kw.len()]))) {
        Some(pos + kw.len())
    } else {
        None
    }
}

pub fn parse_kw(s: &[char], pos: usize, kw: &str, err: &mut ParseError) -> (r: Option<usize>)
    requires
        pos <= s@.len(),
    ensures
        match (r, spec_kw(s@, pos as int, kw@)) {
            (Some(end), Some(mend)) => end == mend && pos < end <= s@.len(),
            (None, None) => true,
            _ => false,
        },
        r is Some ==> *final(err) == *old(err),
        r is None ==> spec_noted(*old(err), *final(err), pos as int, Expected::Keyword),
{
    let k = crate::scan::to_chars(kw);
    if k.len() == 0 || pos >= s.len() || k.len() > s.len() - pos {
        note(err, pos, Expected::Keyword);
        return None;
    }
    let k0 = k[0];
    let first_ok = s[pos] == k0 || ('A' <= k0 && k0 <= 'Z' && s[pos] as u32 == k0 as u32 + 32);
    if !first_ok {
        note(err, pos, Expected::Keyword);
        return None;
    }
    let slen = s.len();
    let mut i: usize = 1;
    while i < k.len()
        invariant
            1 <= i <= k@.len(),
            pos + k@.len() <= s@.len(),
            s@.len() == slen as int,
            k@ == kw@,
            forall|j: int| 1 <= j < i ==> s@[pos + j] == k@[j],
            *err == *old(err),
        decreases k@.len() - i,
    {
        if s[pos + i] != k[i] {
            note(err, pos, Expected::Keyword);
            return None;
        }
        i = i + 1;
    }
    let end = pos + k.len();
    if name_char(k[k.len() - 1]) && end < s.len() && name_char(s[end]) {
        note(err, pos, Expected::Keyword);
        return None;
    }
    Some(end)
}

/// A single punctuation character.
pub open spec fn spec_sym(s: Seq<char>, pos: int, c: char) -> Option<int> {
    if 0 <= pos < s.len() && s[pos] == c {
        Some(pos + 1)
    } else {
        None
    }
}

pub fn parse_sym(s: &[char], pos: usize, c: char, err: &mut ParseError) -> (r: Option<usize>)
    requires
        pos <= s@.len(),
    ensures
        match (r, spec_sym(s@, pos as int, c)) {
            (Some(end), Some(mend)) => end == mend && pos < end <= s@.len(),
            (None, None) => true,
            _ => false,
        },
        r is Some ==> *final(err) == *old(err),
        r is None ==> spec_noted(*old(err), *final(err), pos as int, Expected::Symbol(c)),
{
    if pos < s.len() && s[pos] == c {
        Some(pos + 1)
    } else {
        note(err, pos, Expected::Symbol(c));
        None
    }
}

/// Convert a borrowed string to its characters.
pub fn to_chars(s: &str) -> (r: Vec<char>)
    ensures
        r@ == s@,
{
    let mut v: Vec<char> = Vec::new();
    let mut it = s.chars();
    loop
        invariant
            vstd::std_specs::iter::IteratorSpec::remaining(&it) == s@.subrange(
                v@.len() as int,
                s@.len() as int,
            ),
            v@ == s@.subrange(0, v@.len() as int),
            v@.len() <= s@.len(),
        decreases s@.len() - v@.len(),
    {
        match it.next() {
            Some(c) => {
                v.push(c);
                proof {
                    assert(v@ =~= s@.subrange(0, v@.len() as int));
                    assert(vstd::std_specs::iter::IteratorSpec::remaining(&it) =~= s@.subrange(
                        v@.len() as int,
                        s@.len() as int,
                    ));
                }
            },
            None => {
                proof {
                    assert(v@ =~= s@);
                }
                return v;
            },
        }
    }
}

} // verus!
