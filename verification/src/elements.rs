//! Grammar of rule elements: the precedence cascade for phoneme-matching
//! patterns, feature matrices, and environments.
//!
//! Each grammar rule is defined once as a spec function over the source
//! text (a `Seq<char>`) and once as an executable parser proved equal to
//! it. Ordered choice is literal: the first alternative that matches at a
//! position wins, and failed alternatives leave the position unchanged.
//!
//! Precedence nests as the resolution order of `spec_uncond`: a free
//! element is bounded, interfix, negated, postfix or simple, and a run of
//! free elements forms a sequence; a single free element stands for
//! itself. Pattern text atoms are single characters (or one escaped
//! character), so a postfix operator binds tighter than juxtaposition:
//! `ab+` is the sequence of `a` and one-or-more `b`.
//!
//! The `p2 > pos`-style progress guards on recursive calls never fail
//! (every matched construct consumes at least one character); they make
//! termination of the mutual recursion evident.

use vstd::prelude::*;
use crate::ast;
use crate::ast::{Expected, ParseError, Span};
use crate::model;
use crate::model::{
    cenv_view, clause_view, elem_view, elems_view, env_view, envs_view, matrix_view, mval_view,
    mvals_view, span_view,
};
use crate::scan::{
    is_digit, is_name_char, is_reserved, is_ws, parse_kw, parse_name, parse_number, parse_sym,
    parse_text_char, skip, spec_kw, spec_name, spec_number, spec_skip, spec_sym, spec_text_char,
    note,
};

verus! {

// ---------------------------------------------------------------------------
// Result views: executable parse results seen as model parse results.
// ---------------------------------------------------------------------------

pub open spec fn elem_res_view(r: Option<(ast::RuleElement, usize)>) -> Option<
    (model::RuleElement, int),
> {
    match r {
        Some((e, p)) => Some((elem_view(e), p as int)),
        None => None,
    }
}

pub open spec fn matrix_res_view(r: Option<(ast::Matrix, usize)>) -> Option<(model::Matrix, int)> {
    match r {
        Some((m, p)) => Some((matrix_view(m), p as int)),
        None => None,
    }
}

pub open spec fn mval_res_view(r: Option<(ast::MatrixValue, usize)>) -> Option<
    (model::MatrixValue, int),
> {
    match r {
        Some((v, p)) => Some((mval_view(v), p as int)),
        None => None,
    }
}

pub open spec fn env_res_view(r: Option<(ast::Environment, usize)>) -> Option<
    (model::Environment, int),
> {
    match r {
        Some((e, p)) => Some((env_view(e), p as int)),
        None => None,
    }
}

pub open spec fn clause_res_view(r: Option<(ast::EnvClause, usize)>) -> Option<
    (model::EnvClause, int),
> {
    match r {
        Some((c, p)) => Some((clause_view(c), p as int)),
        None => None,
    }
}

pub open spec fn cenv_res_view(r: Option<(ast::CompoundEnvironment, usize)>) -> Option<
    (model::CompoundEnvironment, int),
> {
    match r {
        Some((c, p)) => Some((cenv_view(c), p as int)),
        None => None,
    }
}

// ---------------------------------------------------------------------------
// Matrices.
// ---------------------------------------------------------------------------

/// An optional `+` or `-` sign.
pub open spec fn spec_sign(s: Seq<char>, pos: int) -> (ast::Sign, int) {
    if 0 <= pos < s.len() && s[pos] == '+' {
        (ast::Sign::Plus, pos + 1)
    } else if 0 <= pos < s.len() && s[pos] == '-' {
        (ast::Sign::Minus, pos + 1)
    } else {
        (ast::Sign::Unsigned, pos)
    }
}

/// `(+|-)?name`: one plain matrix value.
pub open spec fn spec_matrix_value(s: Seq<char>, pos: int) -> Option<(model::MatrixValue, int)> {
    let (sign, p1) = spec_sign(s, pos);
    match spec_name(s, p1) {
        Some((n, end)) => Some(
            (
                model::MatrixValue::Feature {
                    sign,
                    name: n,
                    span: model::Span { lo: pos, hi: end },
                },
                end,
            ),
        ),
        None => None,
    }
}

/// One fancy matrix value: a plain value, `!value`, `*name` (absent
/// feature) or `$name` (feature variable).
pub open spec fn spec_fancy_value(s: Seq<char>, pos: int) -> Option<(model::MatrixValue, int)> {
    match spec_matrix_value(s, pos) {
        Some(r) => Some(r),
        None => {
            if 0 <= pos < s.len() && s[pos] == '!' {
                let (sign, p1) = spec_sign(s, pos + 1);
                match spec_name(s, p1) {
                    Some((n, end)) => Some(
                        (
                            model::MatrixValue::Negated {
                                sign,
                                name: n,
                                span: model::Span { lo: pos, hi: end },
                            },
                            end,
                        ),
                    ),
                    None => None,
                }
            } else if 0 <= pos < s.len() && s[pos] == '*' {
                match spec_name(s, pos + 1) {
                    Some((n, end)) => Some(
                        (
                            model::MatrixValue::Absent {
                                name: n,
                                span: model::Span { lo: pos, hi: end },
                            },
                            end,
                        ),
                    ),
                    None => None,
                }
            } else if 0 <= pos < s.len() && s[pos] == '$' {
                match spec_name(s, pos + 1) {
                    Some((n, end)) => Some(
                        (
                            model::MatrixValue::Variable {
                                name: n,
                                span: model::Span { lo: pos, hi: end },
                            },
                            end,
                        ),
                    ),
                    None => None,
                }
            } else {
                None
            }
        },
    }
}

pub open spec fn spec_one_value(s: Seq<char>, pos: int, fancy: bool) -> Option<
    (model::MatrixValue, int),
> {
    if fancy {
        spec_fancy_value(s, pos)
    } else {
        spec_matrix_value(s, pos)
    }
}

/// Matrix values separated by whitespace, read until no further value
/// follows; the position ends after the last value.
pub open spec fn spec_matrix_vals(s: Seq<char>, pos: int, fancy: bool) -> (Seq<model::MatrixValue>, int)
    decreases s.len() - pos,
{
    if !(0 <= pos <= s.len()) {
        (Seq::empty(), pos)
    } else {
        let p1 = spec_skip(s, pos);
        match spec_one_value(s, p1, fancy) {
            Some((v, e)) => {
                if pos < e <= s.len() {
                    let (rest, end) = spec_matrix_vals(s, e, fancy);
                    (seq![v] + rest, end)
                } else {
                    (seq![v], e)
                }
            },
            None => (Seq::empty(), pos),
        }
    }
}

/// `[` values `]`: a feature matrix; `fancy` admits the pattern-only
/// value forms.
pub open spec fn spec_matrix(s: Seq<char>, pos: int, fancy: bool) -> Option<(model::Matrix, int)> {
    match spec_sym(s, pos, '[') {
        Some(p1) => {
            let (values, p2) = spec_matrix_vals(s, p1, fancy);
            if 0 <= p2 <= s.len() {
                match spec_sym(s, spec_skip(s, p2), ']') {
                    Some(end) => Some(
                        (model::Matrix { values, span: model::Span { lo: pos, hi: end } }, end),
                    ),
                    None => None,
                }
            } else {
                None
            }
        },
        None => None,
    }
}

fn parse_sign(s: &[char], pos: usize) -> (r: (ast::Sign, usize))
    requires
        pos <= s@.len(),
    ensures
        (r.0, r.1 as int) == spec_sign(s@, pos as int),
        pos <= r.1 <= s@.len(),
{
    if pos < s.len() && s[pos] == '+' {
        (ast::Sign::Plus, pos + 1)
    } else if pos < s.len() && s[pos] == '-' {
        (ast::Sign::Minus, pos + 1)
    } else {
        (ast::Sign::Unsigned, pos)
    }
}

fn parse_matrix_value(s: &[char], pos: usize, err: &mut ParseError) -> (r: Option<
    (ast::MatrixValue, usize),
>)
    requires
        pos <= s@.len(),
    ensures
        mval_res_view(r) == spec_matrix_value(s@, pos as int),
        r matches Some((_, end)) ==> pos < end <= s@.len(),
{
    let (sign, p1) = parse_sign(s, pos);
    match parse_name(s, p1, err) {
        Some((n, end)) => Some(
            (ast::MatrixValue::Feature { sign, name: n, span: Span { lo: pos, hi: end } }, end),
        ),
        None => None,
    }
}

fn parse_fancy_value(s: &[char], pos: usize, err: &mut ParseError) -> (r: Option<
    (ast::MatrixValue, usize),
>)
    requires
        pos <= s@.len(),
    ensures
        mval_res_view(r) == spec_fancy_value(s@, pos as int),
        r matches Some((_, end)) ==> pos < end <= s@.len(),
{
    match parse_matrix_value(s, pos, err) {
        Some(r) => Some(r),
        None => {
            if pos < s.len() && s[pos] == '!' {
                let (sign, p1) = parse_sign(s, pos + 1);
                match parse_name(s, p1, err) {
                    Some((n, end)) => Some(
                        (
                            ast::MatrixValue::Negated {
                                sign,
                                name: n,
                                span: Span { lo: pos, hi: end },
                            },
                            end,
                        ),
                    ),
                    None => None,
                }
            } else if pos < s.len() && s[pos] == '*' {
                match parse_name(s, pos + 1, err) {
                    Some((n, end)) => Some(
                        (
                            ast::MatrixValue::Absent { name: n, span: Span { lo: pos, hi: end } },
                            end,
                        ),
                    ),
                    None => None,
                }
            } else if pos < s.len() && s[pos] == '$' {
                match parse_name(s, pos + 1, err) {
                    Some((n, end)) => Some(
                        (
                            ast::MatrixValue::Variable { name: n, span: Span { lo: pos, hi: end } },
                            end,
                        ),
                    ),
                    None => None,
                }
            } else {
                None
            }
        },
    }
}

fn parse_one_value(s: &[char], pos: usize, fancy: bool, err: &mut ParseError) -> (r: Option<
    (ast::MatrixValue, usize),
>)
    requires
        pos <= s@.len(),
    ensures
        mval_res_view(r) == spec_one_value(s@, pos as int, fancy),
        r matches Some((_, end)) ==> pos < end <= s@.len(),
{
    if fancy {
        parse_fancy_value(s, pos, err)
    } else {
        parse_matrix_value(s, pos, err)
    }
}

fn parse_matrix_vals(s: &[char], pos: usize, fancy: bool, err: &mut ParseError) -> (r: (
    Vec<ast::MatrixValue>,
    usize,
))
    requires
        pos <= s@.len(),
    ensures
        (mvals_view(r.0@), r.1 as int) == spec_matrix_vals(s@, pos as int, fancy),
        pos <= r.1 <= s@.len(),
    decreases s@.len() - pos,
{
    let p1 = skip(s, pos);
    match parse_one_value(s, p1, fancy, err) {
        Some((v, e)) => {
            if pos < e {
                let (rest, end) = parse_matrix_vals(s, e, fancy, err);
                let mut items = rest;
                items.insert(0, v);
                proof {
                    assert(items@ =~= seq![v] + rest@);
                    assert((seq![v] + rest@).subrange(1, (seq![v] + rest@).len() as int)
                        =~= rest@);
                }
                (items, end)
            } else {
                let mut items: Vec<ast::MatrixValue> = Vec::new();
                items.push(v);
                proof {
                    assert(items@ =~= seq![v]);
                    assert(seq![v].subrange(1, 1) =~= Seq::<ast::MatrixValue>::empty());
                }
                (items, e)
            }
        },
        None => (Vec::new(), pos),
    }
}

pub fn parse_matrix(s: &[char], pos: usize, fancy: bool, err: &mut ParseError) -> (r: Option<
    (ast::Matrix, usize),
>)
    requires
        pos <= s@.len(),
    ensures
        matrix_res_view(r) == spec_matrix(s@, pos as int, fancy),
        r matches Some((_, end)) ==> pos < end <= s@.len(),
{
    match parse_sym(s, pos, '[', err) {
        Some(p1) => {
            let (values, p2) = parse_matrix_vals(s, p1, fancy, err);
            let p3 = skip(s, p2);
            match parse_sym(s, p3, ']', err) {
                Some(end) => Some(
                    (ast::Matrix { values, span: Span { lo: pos, hi: end } }, end),
                ),
                None => None,
            }
        },
        None => None,
    }
}

// ---------------------------------------------------------------------------
// Postfix tokens.
// ---------------------------------------------------------------------------

/// `~?$.?N`: a capture reference token: (index, inexact, at syllable
/// boundary) and the end position.
pub open spec fn spec_capture_ref(s: Seq<char>, pos: int) -> Option<((u64, bool, bool), int)> {
    let inexact = 0 <= pos < s.len() && s[pos] == '~';
    let p1 = if inexact {
        pos + 1
    } else {
        pos
    };
    match spec_sym(s, p1, '$') {
        Some(p2) => {
            let syl = 0 <= p2 < s.len() && s[p2] == '.';
            let p3 = if syl {
                p2 + 1
            } else {
                p2
            };
            match spec_number(s, p3) {
                Some((n, end)) => Some(((n, inexact, syl), end)),
                None => None,
            }
        },
        None => None,
    }
}

fn parse_capture_ref(s: &[char], pos: usize, err: &mut ParseError) -> (r: Option<
    ((u64, bool, bool), usize),
>)
    requires
        pos <= s@.len(),
    ensures
        match (r, spec_capture_ref(s@, pos as int)) {
            (Some((v, end)), Some((mv, mend))) => v == mv && end == mend && pos < end <= s@.len(),
            (None, None) => true,
            _ => false,
        },
{
    let inexact = pos < s.len() && s[pos] == '~';
    let p1 = if inexact {
        pos + 1
    } else {
        pos
    };
    match parse_sym(s, p1, '$', err) {
        Some(p2) => {
            let syl = p2 < s.len() && s[p2] == '.';
            let p3 = if syl {
                p2 + 1
            } else {
                p2
            };
            match parse_number(s, p3, err) {
                Some((n, end)) => Some(((n, inexact, syl), end)),
                None => None,
            }
        },
        None => None,
    }
}

/// A repeat operator: `*N`, `*(lo?-hi?)`, `+`, `*` or `?`.
pub open spec fn spec_repeater_type(s: Seq<char>, pos: int) -> Option<(ast::RepeatRange, int)> {
    if 0 <= pos < s.len() && s[pos] == '*' {
        match spec_number(s, pos + 1) {
            Some((n, end)) => Some((ast::RepeatRange::Exactly(n), end)),
            None => {
                match spec_sym(s, pos + 1, '(') {
                    Some(p1) => {
                        let p2 = spec_skip(s, p1);
                        let (lo, p3) = match spec_number(s, p2) {
                            Some((n, e)) => (Some(n), e),
                            None => (None, p2),
                        };
                        if 0 <= p3 <= s.len() {
                            match spec_sym(s, spec_skip(s, p3), '-') {
                                Some(p4) => {
                                    let p5 = spec_skip(s, p4);
                                    let (hi, p6) = match spec_number(s, p5) {
                                        Some((n, e)) => (Some(n), e),
                                        None => (None, p5),
                                    };
                                    if 0 <= p6 <= s.len() {
                                        match spec_sym(s, spec_skip(s, p6), ')') {
                                            Some(end) => Some(
                                                (ast::RepeatRange::Bounded { lo, hi }, end),
                                            ),
                                            None => None,
                                        }
                                    } else {
                                        None
                                    }
                                },
                                None => None,
                            }
                        } else {
                            None
                        }
                    },
                    None => Some((ast::RepeatRange::ZeroOrMore, pos + 1)),
                }
            },
        }
    } else if 0 <= pos < s.len() && s[pos] == '+' {
        Some((ast::RepeatRange::AtLeastOne, pos + 1))
    } else if 0 <= pos < s.len() && s[pos] == '?' {
        Some((ast::RepeatRange::Optional, pos + 1))
    } else {
        None
    }
}

fn parse_repeater_type(s: &[char], pos: usize, err: &mut ParseError) -> (r: Option<
    (ast::RepeatRange, usize),
>)
    requires
        pos <= s@.len(),
    ensures
        match (r, spec_repeater_type(s@, pos as int)) {
            (Some((v, end)), Some((mv, mend))) => v == mv && end == mend && pos < end <= s@.len(),
            (None, None) => true,
            _ => false,
        },
{
    if pos < s.len() && s[pos] == '*' {
        match parse_number(s, pos + 1, err) {
            Some((n, end)) => Some((ast::RepeatRange::Exactly(n), end)),
            None => {
                match parse_sym(s, pos + 1, '(', err) {
                    Some(p1) => {
                        let p2 = skip(s, p1);
                        let (lo, p3) = match parse_number(s, p2, err) {
                            Some((n, e)) => (Some(n), e),
                            None => (None, p2),
                        };
                        match parse_sym(s, skip(s, p3), '-', err) {
                            Some(p4) => {
                                let p5 = skip(s, p4);
                                let (hi, p6) = match parse_number(s, p5, err) {
                                    Some((n, e)) => (Some(n), e),
                                    None => (None, p5),
                                };
                                match parse_sym(s, skip(s, p6), ')', err) {
                                    Some(end) => Some((ast::RepeatRange::Bounded { lo, hi }, end)),
                                    None => None,
                                }
                            },
                            None => None,
                        }
                    },
                    None => Some((ast::RepeatRange::ZeroOrMore, pos + 1)),
                }
            },
        }
    } else if pos < s.len() && s[pos] == '+' {
        Some((ast::RepeatRange::AtLeastOne, pos + 1))
    } else if pos < s.len() && s[pos] == '?' {
        Some((ast::RepeatRange::Optional, pos + 1))
    } else {
        note(err, pos, Expected::Symbol('+'));
        None
    }
}

// ---------------------------------------------------------------------------
// The element grammar, spec level.
// ---------------------------------------------------------------------------

/// A simple element: a leaf of the pattern grammar.
/// A literal text atom: one text character, optionally followed by a `!`
/// negation mark.
pub open spec fn spec_simple_text(s: Seq<char>, pos: int) -> Option<(model::RuleElement, int)> {
    match spec_text_char(s, pos) {
        Some((c, p1)) => {
            if 0 <= p1 < s.len() && s[p1] == '!' {
                Some(
                    (
                        model::RuleElement::Text {
                            ch: c,
                            negated: true,
                            span: model::Span { lo: pos, hi: p1 + 1 },
                        },
                        p1 + 1,
                    ),
                )
            } else {
                Some(
                    (
                        model::RuleElement::Text {
                            ch: c,
                            negated: false,
                            span: model::Span { lo: pos, hi: p1 },
                        },
                        p1,
                    ),
                )
            }
        },
        None => None,
    }
}

pub open spec fn spec_simple(s: Seq<char>, pos: int) -> Option<(model::RuleElement, int)>
    decreases s.len() - pos, 1int,
{
    if match spec_sym(s, pos, '<') {
        Some(p1) => spec_kw(s, p1, "Syl"@) is Some,
        None => false,
    } {
        let p2 = spec_kw(s, spec_sym(s, pos, '<')->0, "Syl"@)->0;
        match spec_sym(s, p2, '>') {
            Some(end) => Some(
                (model::RuleElement::AnySyllable { span: model::Span { lo: pos, hi: end } }, end),
            ),
            None => None,
        }
    } else if spec_sym(s, pos, '@') is Some && spec_name(s, pos + 1) is Some {
        let (n, end) = spec_name(s, pos + 1)->0;
        Some((model::RuleElement::ElementRef { name: n, span: model::Span { lo: pos, hi: end } }, end))
    } else if spec_capture_ref(s, pos) is Some {
        let ((index, inexact, syl_boundary), end) = spec_capture_ref(s, pos)->0;
        Some(
            (
                model::RuleElement::CaptureRef {
                    index,
                    inexact,
                    syl_boundary,
                    span: model::Span { lo: pos, hi: end },
                },
                end,
            ),
        )
    } else if spec_matrix(s, pos, true) is Some {
        let (m, end) = spec_matrix(s, pos, true)->0;
        Some((model::RuleElement::Matrix { matrix: m, span: model::Span { lo: pos, hi: end } }, end))
    } else if spec_sym(s, pos, '*') is Some {
        Some((model::RuleElement::Empty { span: model::Span { lo: pos, hi: pos + 1 } }, pos + 1))
    } else if spec_sym(s, pos, '.') is Some {
        Some((model::RuleElement::SylBoundary { span: model::Span { lo: pos, hi: pos + 1 } }, pos + 1))
    } else if spec_sym(s, pos, '$') is Some && spec_sym(s, pos + 1, '$') is Some {
        Some(
            (model::RuleElement::BetweenWords { span: model::Span { lo: pos, hi: pos + 2 } }, pos + 2),
        )
    } else if spec_sym(s, pos, '$') is Some {
        Some(
            (model::RuleElement::WordBoundary { span: model::Span { lo: pos, hi: pos + 1 } }, pos + 1),
        )
    } else {
        spec_simple_text(s, pos)
    }
}

/// A bounded element: a parenthesized group or a braced alternation list
/// (trailing separator tolerated).
pub open spec fn spec_bounded(s: Seq<char>, pos: int) -> Option<(model::RuleElement, int)>
    decreases s.len() - pos, 1int,
{
    match spec_sym(s, pos, '(') {
        Some(p1) => {
            let p2 = spec_skip(s, p1);
            if p1 <= p2 <= s.len() {
                match spec_rule_element(s, p2) {
                    Some((e, p3)) => {
                        if p2 < p3 <= s.len() {
                            match spec_sym(s, spec_skip(s, p3), ')') {
                                Some(end) => Some(
                                    (
                                        model::RuleElement::Group {
                                            inner: Box::new(e),
                                            span: model::Span { lo: pos, hi: end },
                                        },
                                        end,
                                    ),
                                ),
                                None => None,
                            }
                        } else {
                            None
                        }
                    },
                    None => None,
                }
            } else {
                None
            }
        },
        None => {
            match spec_sym(s, pos, '{') {
                Some(p1) => {
                    let p2 = spec_skip(s, p1);
                    if p1 <= p2 <= s.len() {
                        match spec_rule_element(s, p2) {
                            Some((e, p3)) => {
                                if p2 < p3 <= s.len() {
                                    let (rest, p4) = spec_list_rest(s, p3);
                                    if p3 <= p4 <= s.len() {
                                        match spec_sym(s, spec_skip(s, p4), '}') {
                                            Some(end) => Some(
                                                (
                                                    model::RuleElement::List {
                                                        items: seq![e] + rest,
                                                        span: model::Span { lo: pos, hi: end },
                                                    },
                                                    end,
                                                ),
                                            ),
                                            None => None,
                                        }
                                    } else {
                                        None
                                    }
                                } else {
                                    None
                                }
                            },
                            None => None,
                        }
                    } else {
                        None
                    }
                },
                None => None,
            }
        },
    }
}

/// Further `, element` items of an alternation list; a separator with no
/// element after it is the tolerated trailing separator.
pub open spec fn spec_list_rest(s: Seq<char>, pos: int) -> (Seq<model::RuleElement>, int)
    decreases s.len() - pos, 2int,
{
    if !(0 <= pos <= s.len()) {
        (Seq::empty(), pos)
    } else {
        match spec_sym(s, spec_skip(s, pos), ',') {
            Some(p1) => {
                let p2 = spec_skip(s, p1);
                if pos < p2 <= s.len() {
                    match spec_rule_element(s, p2) {
                        Some((e, p3)) => {
                            if pos < p3 <= s.len() {
                                let (rest, end) = spec_list_rest(s, p3);
                                (seq![e] + rest, end)
                            } else {
                                (seq![e], p3)
                            }
                        },
                        None => (Seq::empty(), p1),
                    }
                } else {
                    (Seq::empty(), p1)
                }
            },
            None => (Seq::empty(), pos),
        }
    }
}

/// A negated element: `!` directly before a bounded or simple element.
pub open spec fn spec_negated(s: Seq<char>, pos: int) -> Option<(model::RuleElement, int)>
    decreases s.len() - pos, 1int,
{
    match spec_sym(s, pos, '!') {
        Some(p1) => {
            let inner = match spec_bounded(s, p1) {
                Some(r) => Some(r),
                None => spec_simple(s, p1),
            };
            match inner {
                Some((e, end)) => Some(
                    (
                        model::RuleElement::Negated {
                            inner: Box::new(e),
                            span: model::Span { lo: pos, hi: end },
                        },
                        end,
                    ),
                ),
                None => None,
            }
        },
        None => None,
    }
}

/// The target of a capture suffix: a bounded, negated or simple element.
pub open spec fn spec_capture_base(s: Seq<char>, pos: int) -> Option<(model::RuleElement, int)>
    decreases s.len() - pos, 2int,
{
    match spec_bounded(s, pos) {
        Some(r) => Some(r),
        None => match spec_negated(s, pos) {
            Some(r) => Some(r),
            None => spec_simple(s, pos),
        },
    }
}

/// The target of a repeat suffix: a bounded or simple element.
pub open spec fn spec_repeat_base(s: Seq<char>, pos: int) -> Option<(model::RuleElement, int)>
    decreases s.len() - pos, 2int,
{
    match spec_bounded(s, pos) {
        Some(r) => Some(r),
        None => spec_simple(s, pos),
    }
}

/// A postfix element: a capture `e$N` or a repeat `e+`/`e*`/`e?`/`e*N`/
/// `e*(lo-hi)`, the suffix directly after its target.
pub open spec fn spec_postfix(s: Seq<char>, pos: int) -> Option<(model::RuleElement, int)>
    decreases s.len() - pos, 3int,
{
    let capture = match spec_capture_base(s, pos) {
        Some((e, pe)) => {
            if 0 <= pe <= s.len() {
                match spec_capture_ref(s, pe) {
                    Some(((index, _inexact, _syl), end)) => Some(
                        (
                            model::RuleElement::Capture {
                                inner: Box::new(e),
                                index,
                                span: model::Span { lo: pos, hi: end },
                            },
                            end,
                        ),
                    ),
                    None => None,
                }
            } else {
                None
            }
        },
        None => None,
    };
    match capture {
        Some(r) => Some(r),
        None => {
            match spec_repeat_base(s, pos) {
                Some((e, pe)) => {
                    if 0 <= pe <= s.len() {
                        match spec_repeater_type(s, pe) {
                            Some((range, end)) => Some(
                                (
                                    model::RuleElement::Repeat {
                                        inner: Box::new(e),
                                        range,
                                        span: model::Span { lo: pos, hi: end },
                                    },
                                    end,
                                ),
                            ),
                            None => None,
                        }
                    } else {
                        None
                    }
                },
                None => None,
            }
        },
    }
}

/// An operand of an interfix chain.
pub open spec fn spec_interfix_elem(s: Seq<char>, pos: int) -> Option<(model::RuleElement, int)>
    decreases s.len() - pos, 4int,
{
    match spec_bounded(s, pos) {
        Some(r) => Some(r),
        None => match spec_negated(s, pos) {
            Some(r) => Some(r),
            None => match spec_postfix(s, pos) {
                Some(r) => Some(r),
                None => spec_simple(s, pos),
            },
        },
    }
}

/// An interfix operator: `&!`, `&` or `>`.
pub open spec fn spec_interfix_op(s: Seq<char>, pos: int) -> Option<(ast::InterfixOp, int)> {
    if 0 <= pos && pos + 1 < s.len() && s[pos] == '&' && s[pos + 1] == '!' {
        Some((ast::InterfixOp::IntersectNot, pos + 2))
    } else if 0 <= pos < s.len() && s[pos] == '&' {
        Some((ast::InterfixOp::Intersect, pos + 1))
    } else if 0 <= pos < s.len() && s[pos] == '>' {
        Some((ast::InterfixOp::Transform, pos + 1))
    } else {
        None
    }
}

/// Further `op element` links of an interfix chain, glued without
/// whitespace.
pub open spec fn spec_interfix_rest(s: Seq<char>, pos: int) -> (Seq<model::RuleElement>, Seq<
    ast::InterfixOp,
>, int)
    decreases s.len() - pos, 5int,
{
    if !(0 <= pos <= s.len()) {
        (Seq::empty(), Seq::empty(), pos)
    } else {
        match spec_interfix_op(s, pos) {
            Some((op, p1)) => {
                if pos < p1 <= s.len() {
                    match spec_interfix_elem(s, p1) {
                        Some((e, p2)) => {
                            if pos < p2 <= s.len() {
                                let (elems, ops, end) = spec_interfix_rest(s, p2);
                                (seq![e] + elems, seq![op] + ops, end)
                            } else {
                                (seq![e], seq![op], p2)
                            }
                        },
                        None => (Seq::empty(), Seq::empty(), pos),
                    }
                } else {
                    (Seq::empty(), Seq::empty(), pos)
                }
            },
            None => (Seq::empty(), Seq::empty(), pos),
        }
    }
}

/// An interfix chain: two or more operands joined by `&`, `&!` or `>`
/// with no intervening whitespace. A lone operand falls through to the
/// next precedence tier instead.
pub open spec fn spec_interfix(s: Seq<char>, pos: int) -> Option<(model::RuleElement, int)>
    decreases s.len() - pos, 6int,
{
    match spec_interfix_elem(s, pos) {
        Some((e, p1)) => {
            if pos < p1 <= s.len() {
                let (elems, ops, end) = spec_interfix_rest(s, p1);
                if elems.len() >= 1 {
                    Some(
                        (
                            model::RuleElement::Interfix {
                                items: seq![e] + elems,
                                ops,
                                span: model::Span { lo: pos, hi: end },
                            },
                            end,
                        ),
                    )
                } else {
                    None
                }
            } else {
                None
            }
        },
        None => None,
    }
}

/// One free element of a sequence.
pub open spec fn spec_free_elem(s: Seq<char>, pos: int) -> Option<(model::RuleElement, int)>
    decreases s.len() - pos, 7int,
{
    match spec_bounded(s, pos) {
        Some(r) => Some(r),
        None => match spec_interfix(s, pos) {
            Some(r) => Some(r),
            None => match spec_negated(s, pos) {
                Some(r) => Some(r),
                None => match spec_postfix(s, pos) {
                    Some(r) => Some(r),
                    None => spec_simple(s, pos),
                },
            },
        },
    }
}

/// Further free elements of a sequence, each after optional whitespace;
/// the sequence does not consume trailing separation.
pub open spec fn spec_seq_rest(s: Seq<char>, pos: int) -> (Seq<model::RuleElement>, int)
    decreases s.len() - pos, 8int,
{
    if !(0 <= pos <= s.len()) {
        (Seq::empty(), pos)
    } else {
        let p1 = spec_skip(s, pos);
        if pos <= p1 <= s.len() {
            match spec_free_elem(s, p1) {
                Some((e, pe)) => {
                    if pos < pe <= s.len() {
                        let (rest, end) = spec_seq_rest(s, pe);
                        (seq![e] + rest, end)
                    } else {
                        (seq![e], pe)
                    }
                },
                None => (Seq::empty(), pos),
            }
        } else {
            (Seq::empty(), pos)
        }
    }
}

/// An unconditional rule element: one or more free elements. A single
/// free element stands for itself; two or more form a `Sequence` node.
pub open spec fn spec_uncond(s: Seq<char>, pos: int) -> Option<(model::RuleElement, int)>
    decreases s.len() - pos, 9int,
{
    match spec_free_elem(s, pos) {
        Some((e, p1)) => {
            if pos < p1 <= s.len() {
                let (rest, end) = spec_seq_rest(s, p1);
                if rest.len() == 0 {
                    Some((e, p1))
                } else {
                    Some(
                        (
                            model::RuleElement::Sequence {
                                items: seq![e] + rest,
                                span: model::Span { lo: pos, hi: end },
                            },
                            end,
                        ),
                    )
                }
            } else {
                None
            }
        },
        None => None,
    }
}

/// An environment: the anchored form `before? _ after?` is tried first,
/// the bare form (an element with no anchor) second.
pub open spec fn spec_environment(s: Seq<char>, pos: int) -> Option<(model::Environment, int)>
    decreases s.len() - pos, 10int,
{
    let anchored = {
        let (before, p1) = match spec_uncond(s, pos) {
            Some((e, pe)) => {
                if pos < pe <= s.len() {
                    (Some(e), spec_skip(s, pe))
                } else {
                    (None, pos)
                }
            },
            None => (None, pos),
        };
        if pos <= p1 <= s.len() {
            match spec_sym(s, p1, '_') {
                Some(p2) => {
                    let p3 = spec_skip(s, p2);
                    let (after, end) = if p2 <= p3 <= s.len() {
                        match spec_uncond(s, p3) {
                            Some((e, pe)) => {
                                if p3 < pe <= s.len() {
                                    (Some(e), pe)
                                } else {
                                    (None, p2)
                                }
                            },
                            None => (None, p2),
                        }
                    } else {
                        (None, p2)
                    };
                    Some(
                        (
                            model::Environment::Anchored {
                                before,
                                after,
                                span: model::Span { lo: pos, hi: end },
                            },
                            end,
                        ),
                    )
                },
                None => None,
            }
        } else {
            None
        }
    };
    match anchored {
        Some(r) => Some(r),
        None => {
            match spec_uncond(s, pos) {
                Some((e, end)) => Some(
                    (
                        model::Environment::Bare { elem: e, span: model::Span { lo: pos, hi: end } },
                        end,
                    ),
                ),
                None => None,
            }
        },
    }
}

/// Further `, environment` items of a braced environment list.
pub open spec fn spec_env_list_rest(s: Seq<char>, pos: int) -> (Seq<model::Environment>, int)
    decreases s.len() - pos, 11int,
{
    if !(0 <= pos <= s.len()) {
        (Seq::empty(), pos)
    } else {
        match spec_sym(s, spec_skip(s, pos), ',') {
            Some(p1) => {
                let p2 = spec_skip(s, p1);
                if pos < p2 <= s.len() {
                    match spec_environment(s, p2) {
                        Some((e, p3)) => {
                            if pos < p3 <= s.len() {
                                let (rest, end) = spec_env_list_rest(s, p3);
                                (seq![e] + rest, end)
                            } else {
                                (seq![e], p3)
                            }
                        },
                        None => (Seq::empty(), pos),
                    }
                } else {
                    (Seq::empty(), pos)
                }
            },
            None => (Seq::empty(), pos),
        }
    }
}

/// The body of a condition or exclusion: a single environment, or a
/// braced disjunction of environments.
pub open spec fn spec_env_clause(s: Seq<char>, pos: int) -> Option<(model::EnvClause, int)>
    decreases s.len() - pos, 12int,
{
    match spec_environment(s, pos) {
        Some((e, end)) => Some((model::EnvClause::Single(Box::new(e)), end)),
        None => {
            match spec_sym(s, pos, '{') {
                Some(p1) => {
                    let p2 = spec_skip(s, p1);
                    if p1 <= p2 <= s.len() {
                        match spec_environment(s, p2) {
                            Some((e, p3)) => {
                                if p2 < p3 <= s.len() {
                                    let (rest, p4) = spec_env_list_rest(s, p3);
                                    if p3 <= p4 <= s.len() {
                                        match spec_sym(s, spec_skip(s, p4), '}') {
                                            Some(end) => Some(
                                                (
                                                    model::EnvClause::Choice {
                                                        envs: seq![e] + rest,
                                                        span: model::Span { lo: pos, hi: end },
                                                    },
                                                    end,
                                                ),
                                            ),
                                            None => None,
                                        }
                                    } else {
                                        None
                                    }
                                } else {
                                    None
                                }
                            },
                            None => None,
                        }
                    } else {
                        None
                    }
                },
                None => None,
            }
        },
    }
}

/// `/ clause`: a condition.
pub open spec fn spec_condition(s: Seq<char>, pos: int) -> Option<(model::EnvClause, int)>
    decreases s.len() - pos, 13int,
{
    match spec_sym(s, pos, '/') {
        Some(p1) => {
            let p2 = spec_skip(s, p1);
            if p1 <= p2 <= s.len() {
                spec_env_clause(s, p2)
            } else {
                None
            }
        },
        None => None,
    }
}

/// `// clause`: an exclusion.
pub open spec fn spec_exclusion(s: Seq<char>, pos: int) -> Option<(model::EnvClause, int)>
    decreases s.len() - pos, 13int,
{
    match spec_sym(s, pos, '/') {
        Some(p1) => {
            match spec_sym(s, p1, '/') {
                Some(p2) => {
                    let p3 = spec_skip(s, p2);
                    if p2 <= p3 <= s.len() {
                        spec_env_clause(s, p3)
                    } else {
                        None
                    }
                },
                None => None,
            }
        },
        None => None,
    }
}

/// A compound environment: an optional condition, then an optional
/// exclusion; at least one side present.
pub open spec fn spec_compound_env(s: Seq<char>, pos: int) -> Option<
    (model::CompoundEnvironment, int),
>
    decreases s.len() - pos, 14int,
{
    match spec_condition(s, pos) {
        Some((c, p1)) => {
            let p2 = if pos < p1 <= s.len() {
                spec_skip(s, p1)
            } else {
                p1
            };
            if pos < p2 <= s.len() {
                match spec_exclusion(s, p2) {
                    Some((x, end)) => Some(
                        (
                            model::CompoundEnvironment {
                                condition: Some(c),
                                exclusion: Some(x),
                                span: model::Span { lo: pos, hi: end },
                            },
                            end,
                        ),
                    ),
                    None => Some(
                        (
                            model::CompoundEnvironment {
                                condition: Some(c),
                                exclusion: None,
                                span: model::Span { lo: pos, hi: p1 },
                            },
                            p1,
                        ),
                    ),
                }
            } else {
                Some(
                    (
                        model::CompoundEnvironment {
                            condition: Some(c),
                            exclusion: None,
                            span: model::Span { lo: pos, hi: p1 },
                        },
                        p1,
                    ),
                )
            }
        },
        None => {
            match spec_exclusion(s, pos) {
                Some((x, end)) => Some(
                    (
                        model::CompoundEnvironment {
                            condition: None,
                            exclusion: Some(x),
                            span: model::Span { lo: pos, hi: end },
                        },
                        end,
                    ),
                ),
                None => None,
            }
        },
    }
}

pub proof fn lemma_elems_view_cons(e: ast::RuleElement, rest: Seq<ast::RuleElement>)
    ensures
        elems_view(seq![e] + rest) == seq![elem_view(e)] + elems_view(rest),
        elems_view(seq![e]) == seq![elem_view(e)],
{
    let full = seq![e] + rest;
    assert(full.len() == 1 + rest.len());
    assert(full[0] == e);
    assert(full.subrange(1, full.len() as int) =~= rest);
    assert(elems_view(full) == seq![elem_view(full[0])] + elems_view(
        full.subrange(1, full.len() as int),
    ));
    let single = seq![e];
    assert(single[0] == e);
    assert(single.subrange(1, 1) =~= Seq::<ast::RuleElement>::empty());
    assert(elems_view(single) == seq![elem_view(e)] + elems_view(Seq::<ast::RuleElement>::empty()));
    assert(elems_view(Seq::<ast::RuleElement>::empty()) =~= Seq::<model::RuleElement>::empty());
    assert(elems_view(single) =~= seq![elem_view(e)]);
}

pub proof fn lemma_envs_view_cons(e: ast::Environment, rest: Seq<ast::Environment>)
    ensures
        envs_view(seq![e] + rest) == seq![env_view(e)] + envs_view(rest),
        envs_view(seq![e]) == seq![env_view(e)],
{
    let full = seq![e] + rest;
    assert(full.len() == 1 + rest.len());
    assert(full[0] == e);
    assert(full.subrange(1, full.len() as int) =~= rest);
    assert(envs_view(full) == seq![env_view(full[0])] + envs_view(
        full.subrange(1, full.len() as int),
    ));
    let single = seq![e];
    assert(single[0] == e);
    assert(single.subrange(1, 1) =~= Seq::<ast::Environment>::empty());
    assert(envs_view(single) == seq![env_view(e)] + envs_view(Seq::<ast::Environment>::empty()));
    assert(envs_view(Seq::<ast::Environment>::empty()) =~= Seq::<model::Environment>::empty());
    assert(envs_view(single) =~= seq![env_view(e)]);
}

/// A rule element: an unconditional element, possibly restricted by a
/// compound environment.
pub open spec fn spec_rule_element(s: Seq<char>, pos: int) -> Option<(model::RuleElement, int)>
    decreases s.len() - pos, 15int,
{
    match spec_uncond(s, pos) {
        Some((e, p1)) => {
            if pos < p1 <= s.len() {
                let p2 = spec_skip(s, p1);
                if pos < p2 <= s.len() {
                    match spec_compound_env(s, p2) {
                    Some((env, end)) => Some(
                        (
                            model::RuleElement::WithEnv {
                                inner: Box::new(e),
                                env,
                                span: model::Span { lo: pos, hi: end },
                            },
                            end,
                        ),
                    ),
                        None => Some((e, p1)),
                    }
                } else {
                    Some((e, p1))
                }
            } else {
                None
            }
        },
        None => None,
    }
}

// ---------------------------------------------------------------------------
// The element grammar, executable level.
// ---------------------------------------------------------------------------

fn parse_simple_text(s: &[char], pos: usize, err: &mut ParseError) -> (r: Option<
    (ast::RuleElement, usize),
>)
    requires
        pos <= s@.len(),
    ensures
        elem_res_view(r) == spec_simple_text(s@, pos as int),
        r matches Some((_, end)) ==> pos < end <= s@.len(),
{
    match parse_text_char(s, pos, err) {
        Some((c, p1)) => {
            if p1 < s.len() && s[p1] == '!' {
                let node = ast::RuleElement::Text {
                    ch: c,
                    negated: true,
                    span: Span { lo: pos, hi: p1 + 1 },
                };
                proof {
                    model::lemma_elem_view_text(c, true, Span { lo: pos, hi: (p1 + 1) as usize });
                }
                Some((node, p1 + 1))
            } else {
                let node = ast::RuleElement::Text {
                    ch: c,
                    negated: false,
                    span: Span { lo: pos, hi: p1 },
                };
                proof {
                    model::lemma_elem_view_text(c, false, Span { lo: pos, hi: p1 });
                }
                Some((node, p1))
            }
        },
        None => None,
    }
}

#[verifier::rlimit(100)]
fn parse_simple(s: &[char], pos: usize, err: &mut ParseError) -> (r: Option<
    (ast::RuleElement, usize),
>)
    requires
        pos <= s@.len(),
    ensures
        elem_res_view(r) == spec_simple(s@, pos as int),
        r matches Some((_, end)) ==> pos < end <= s@.len(),
    decreases s@.len() - pos, 1int,
{
    let ghost gspec = spec_simple(s@, pos as int);
    let syl_kw = match parse_sym(s, pos, '<', err) {
        Some(p1) => parse_kw(s, p1, "Syl", err),
        None => None,
    };
    match syl_kw {
        Some(p2) => {
            let rr = match parse_sym(s, p2, '>', err) {
                Some(end) => Some(
                    (ast::RuleElement::AnySyllable { span: Span { lo: pos, hi: end } }, end),
                ),
                None => None,
            };
            proof {
                assert(elem_res_view(rr) == gspec);
            }
            return rr;
        },
        None => {
            proof {
                assert(!(match spec_sym(s@, pos as int, '<') {
                    Some(p1) => spec_kw(s@, p1, "Syl"@) is Some,
                    None => false,
                }));
            }
        },
    }
    if pos < s.len() && s[pos] == '@' {
        match parse_name(s, pos + 1, err) {
            Some((n, end)) => {
                let rr = Some(
                    (ast::RuleElement::ElementRef { name: n, span: Span { lo: pos, hi: end } }, end),
                );
                proof { assert(elem_res_view(rr) == gspec); }
                return rr;
            },
            None => {},
        }
    }
    match parse_capture_ref(s, pos, err) {
        Some(((index, inexact, syl_boundary), end)) => {
            let rr = Some(
                (
                    ast::RuleElement::CaptureRef {
                        index,
                        inexact,
                        syl_boundary,
                        span: Span { lo: pos, hi: end },
                    },
                    end,
                ),
            );
            proof { assert(elem_res_view(rr) == gspec); }
            return rr;
        },
        None => {},
    }
    match parse_matrix(s, pos, true, err) {
        Some((m, end)) => {
            let rr = Some(
                (ast::RuleElement::Matrix { matrix: m, span: Span { lo: pos, hi: end } }, end),
            );
            proof { assert(elem_res_view(rr) == gspec); }
            return rr;
        },
        None => {},
    }
    if pos < s.len() && s[pos] == '*' {
        let rr = Some((ast::RuleElement::Empty { span: Span { lo: pos, hi: pos + 1 } }, pos + 1));
        proof { assert(elem_res_view(rr) == gspec); }
        return rr;
    }
    if pos < s.len() && s[pos] == '.' {
        let rr = Some(
            (ast::RuleElement::SylBoundary { span: Span { lo: pos, hi: pos + 1 } }, pos + 1),
        );
        proof { assert(elem_res_view(rr) == gspec); }
        return rr;
    }
    if pos < s.len() && s[pos] == '$' {
        if pos + 1 < s.len() && s[pos + 1] == '$' {
            let rr = Some(
                (ast::RuleElement::BetweenWords { span: Span { lo: pos, hi: pos + 2 } }, pos + 2),
            );
            proof { assert(elem_res_view(rr) == gspec); }
            return rr;
        }
        let rr = Some(
            (ast::RuleElement::WordBoundary { span: Span { lo: pos, hi: pos + 1 } }, pos + 1),
        );
        proof { assert(elem_res_view(rr) == gspec); }
        return rr;
    }
    proof {
        assert(!(match spec_sym(s@, pos as int, '<') {
            Some(p1) => spec_kw(s@, p1, "Syl"@) is Some,
            None => false,
        }));
        assert(!(spec_sym(s@, pos as int, '@') is Some && spec_name(s@, pos as int + 1) is Some));
        assert(spec_capture_ref(s@, pos as int) is None);
        assert(spec_matrix(s@, pos as int, true) is None);
        assert(spec_sym(s@, pos as int, '*') is None);
        assert(spec_sym(s@, pos as int, '.') is None);
        assert(spec_sym(s@, pos as int, '$') is None);
        assert(gspec == spec_simple_text(s@, pos as int));
    }
    let rr = parse_simple_text(s, pos, err);
    proof {
        assert(elem_res_view(rr) == gspec);
    }
    rr
}

#[verifier::rlimit(60)]
fn parse_bounded(s: &[char], pos: usize, err: &mut ParseError) -> (r: Option<
    (ast::RuleElement, usize),
>)
    requires
        pos <= s@.len(),
    ensures
        elem_res_view(r) == spec_bounded(s@, pos as int),
        r matches Some((_, end)) ==> pos < end <= s@.len(),
    decreases s@.len() - pos, 1int,
{
    match parse_sym(s, pos, '(', err) {
        Some(p1) => {
            let p2 = skip(s, p1);
            match parse_rule_element(s, p2, err) {
                Some((e, p3)) => {
                    match parse_sym(s, skip(s, p3), ')', err) {
                        Some(end) => Some(
                            (
                                ast::RuleElement::Group {
                                    inner: Box::new(e),
                                    span: Span { lo: pos, hi: end },
                                },
                                end,
                            ),
                        ),
                        None => None,
                    }
                },
                None => None,
            }
        },
        None => {
            match parse_sym(s, pos, '{', err) {
                Some(p1) => {
                    let p2 = skip(s, p1);
                    match parse_rule_element(s, p2, err) {
                        Some((e, p3)) => {
                            let (rest, p4) = parse_list_rest(s, p3, err);
                            proof {
                                lemma_elems_view_cons(e, rest@);
                            }
                            match parse_sym(s, skip(s, p4), '}', err) {
                                Some(end) => {
                                    let ghost rest0 = rest@;
                                    let mut items = rest;
                                    items.insert(0, e);
                                    proof {
                                        assert(items@ =~= seq![e] + rest0);
                                    }
                                    Some(
                                        (
                                            ast::RuleElement::List {
                                                items,
                                                span: Span { lo: pos, hi: end },
                                            },
                                            end,
                                        ),
                                    )
                                },
                                None => None,
                            }
                        },
                        None => None,
                    }
                },
                None => None,
            }
        },
    }
}

fn parse_list_rest(s: &[char], pos: usize, err: &mut ParseError) -> (r: (
    Vec<ast::RuleElement>,
    usize,
))
    requires
        pos <= s@.len(),
    ensures
        (elems_view(r.0@), r.1 as int) == spec_list_rest(s@, pos as int),
        pos <= r.1 <= s@.len(),
    decreases s@.len() - pos, 2int,
{
    let p0 = skip(s, pos);
    match parse_sym(s, p0, ',', err) {
        Some(p1) => {
            let p2 = skip(s, p1);
            match parse_rule_element(s, p2, err) {
                Some((e, p3)) => {
                    let (rest, end) = parse_list_rest(s, p3, err);
                    proof {
                        lemma_elems_view_cons(e, rest@);
                    }
                    let ghost rest0 = rest@;
                    let mut items = rest;
                    items.insert(0, e);
                    proof {
                        assert(items@ =~= seq![e] + rest0);
                    }
                    (items, end)
                },
                None => (Vec::new(), p1),
            }
        },
        None => (Vec::new(), pos),
    }
}

fn parse_negated(s: &[char], pos: usize, err: &mut ParseError) -> (r: Option<
    (ast::RuleElement, usize),
>)
    requires
        pos <= s@.len(),
    ensures
        elem_res_view(r) == spec_negated(s@, pos as int),
        r matches Some((_, end)) ==> pos < end <= s@.len(),
    decreases s@.len() - pos, 1int,
{
    match parse_sym(s, pos, '!', err) {
        Some(p1) => {
            let inner = match parse_bounded(s, p1, err) {
                Some(r) => Some(r),
                None => parse_simple(s, p1, err),
            };
            match inner {
                Some((e, end)) => Some(
                    (
                        ast::RuleElement::Negated {
                            inner: Box::new(e),
                            span: Span { lo: pos, hi: end },
                        },
                        end,
                    ),
                ),
                None => None,
            }
        },
        None => None,
    }
}

fn parse_capture_base(s: &[char], pos: usize, err: &mut ParseError) -> (r: Option<
    (ast::RuleElement, usize),
>)
    requires
        pos <= s@.len(),
    ensures
        elem_res_view(r) == spec_capture_base(s@, pos as int),
        r matches Some((_, end)) ==> pos < end <= s@.len(),
    decreases s@.len() - pos, 2int,
{
    match parse_bounded(s, pos, err) {
        Some(r) => Some(r),
        None => match parse_negated(s, pos, err) {
            Some(r) => Some(r),
            None => parse_simple(s, pos, err),
        },
    }
}

fn parse_repeat_base(s: &[char], pos: usize, err: &mut ParseError) -> (r: Option<
    (ast::RuleElement, usize),
>)
    requires
        pos <= s@.len(),
    ensures
        elem_res_view(r) == spec_repeat_base(s@, pos as int),
        r matches Some((_, end)) ==> pos < end <= s@.len(),
    decreases s@.len() - pos, 2int,
{
    match parse_bounded(s, pos, err) {
        Some(r) => Some(r),
        None => parse_simple(s, pos, err),
    }
}

#[verifier::rlimit(60)]
fn parse_postfix(s: &[char], pos: usize, err: &mut ParseError) -> (r: Option<
    (ast::RuleElement, usize),
>)
    requires
        pos <= s@.len(),
    ensures
        elem_res_view(r) == spec_postfix(s@, pos as int),
        r matches Some((_, end)) ==> pos < end <= s@.len(),
    decreases s@.len() - pos, 3int,
{
    let capture = match parse_capture_base(s, pos, err) {
        Some((e, pe)) => {
            match parse_capture_ref(s, pe, err) {
                Some(((index, _inexact, _syl), end)) => Some(
                    (
                        ast::RuleElement::Capture {
                            inner: Box::new(e),
                            index,
                            span: Span { lo: pos, hi: end },
                        },
                        end,
                    ),
                ),
                None => None,
            }
        },
        None => None,
    };
    match capture {
        Some(r) => Some(r),
        None => {
            match parse_repeat_base(s, pos, err) {
                Some((e, pe)) => {
                    match parse_repeater_type(s, pe, err) {
                        Some((range, end)) => Some(
                            (
                                ast::RuleElement::Repeat {
                                    inner: Box::new(e),
                                    range,
                                    span: Span { lo: pos, hi: end },
                                },
                                end,
                            ),
                        ),
                        None => None,
                    }
                },
                None => None,
            }
        },
    }
}

fn parse_interfix_elem(s: &[char], pos: usize, err: &mut ParseError) -> (r: Option<
    (ast::RuleElement, usize),
>)
    requires
        pos <= s@.len(),
    ensures
        elem_res_view(r) == spec_interfix_elem(s@, pos as int),
        r matches Some((_, end)) ==> pos < end <= s@.len(),
    decreases s@.len() - pos, 4int,
{
    match parse_bounded(s, pos, err) {
        Some(r) => Some(r),
        None => match parse_negated(s, pos, err) {
            Some(r) => Some(r),
            None => match parse_postfix(s, pos, err) {
                Some(r) => Some(r),
                None => parse_simple(s, pos, err),
            },
        },
    }
}

fn parse_interfix_op(s: &[char], pos: usize) -> (r: Option<(ast::InterfixOp, usize)>)
    requires
        pos <= s@.len(),
    ensures
        match (r, spec_interfix_op(s@, pos as int)) {
            (Some((v, end)), Some((mv, mend))) => v == mv && end == mend && pos < end <= s@.len(),
            (None, None) => true,
            _ => false,
        },
{
    if pos < s.len() && s[pos] == '&' && pos + 1 < s.len() && s[pos + 1] == '!' {
        Some((ast::InterfixOp::IntersectNot, pos + 2))
    } else if pos < s.len() && s[pos] == '&' {
        Some((ast::InterfixOp::Intersect, pos + 1))
    } else if pos < s.len() && s[pos] == '>' {
        Some((ast::InterfixOp::Transform, pos + 1))
    } else {
        None
    }
}

fn parse_interfix_rest(s: &[char], pos: usize, err: &mut ParseError) -> (r: (
    Vec<ast::RuleElement>,
    Vec<ast::InterfixOp>,
    usize,
))
    requires
        pos <= s@.len(),
    ensures
        (elems_view(r.0@), r.1@, r.2 as int) == spec_interfix_rest(s@, pos as int),
        pos <= r.2 <= s@.len(),
    decreases s@.len() - pos, 5int,
{
    match parse_interfix_op(s, pos) {
        Some((op, p1)) => {
            match parse_interfix_elem(s, p1, err) {
                Some((e, p2)) => {
                    let (rest, ops, end) = parse_interfix_rest(s, p2, err);
                    proof {
                        lemma_elems_view_cons(e, rest@);
                        assert(seq![op] + ops@ =~= seq![op].add(ops@));
                    }
                    let ghost rest0 = rest@;
                    let ghost ops0 = ops@;
                    let mut items = rest;
                    items.insert(0, e);
                    let mut all_ops = ops;
                    all_ops.insert(0, op);
                    proof {
                        assert(items@ =~= seq![e] + rest0);
                        assert(all_ops@ =~= seq![op] + ops0);
                    }
                    (items, all_ops, end)
                },
                None => (Vec::new(), Vec::new(), pos),
            }
        },
        None => (Vec::new(), Vec::new(), pos),
    }
}

fn parse_interfix(s: &[char], pos: usize, err: &mut ParseError) -> (r: Option<
    (ast::RuleElement, usize),
>)
    requires
        pos <= s@.len(),
    ensures
        elem_res_view(r) == spec_interfix(s@, pos as int),
        r matches Some((_, end)) ==> pos < end <= s@.len(),
    decreases s@.len() - pos, 6int,
{
    match parse_interfix_elem(s, pos, err) {
        Some((e, p1)) => {
            let (elems, ops, end) = parse_interfix_rest(s, p1, err);
            if elems.len() >= 1 {
                proof {
                    lemma_elems_view_cons(e, elems@);
                }
                let ghost elems0 = elems@;
                let mut items = elems;
                items.insert(0, e);
                proof {
                    assert(items@ =~= seq![e] + elems0);
                }
                Some(
                    (
                        ast::RuleElement::Interfix { items, ops, span: Span { lo: pos, hi: end } },
                        end,
                    ),
                )
            } else {
                None
            }
        },
        None => None,
    }
}

fn parse_free_elem(s: &[char], pos: usize, err: &mut ParseError) -> (r: Option<
    (ast::RuleElement, usize),
>)
    requires
        pos <= s@.len(),
    ensures
        elem_res_view(r) == spec_free_elem(s@, pos as int),
        r matches Some((_, end)) ==> pos < end <= s@.len(),
    decreases s@.len() - pos, 7int,
{
    match parse_bounded(s, pos, err) {
        Some(r) => Some(r),
        None => match parse_interfix(s, pos, err) {
            Some(r) => Some(r),
            None => match parse_negated(s, pos, err) {
                Some(r) => Some(r),
                None => match parse_postfix(s, pos, err) {
                    Some(r) => Some(r),
                    None => parse_simple(s, pos, err),
                },
            },
        },
    }
}

fn parse_seq_rest(s: &[char], pos: usize, err: &mut ParseError) -> (r: (
    Vec<ast::RuleElement>,
    usize,
))
    requires
        pos <= s@.len(),
    ensures
        (elems_view(r.0@), r.1 as int) == spec_seq_rest(s@, pos as int),
        pos <= r.1 <= s@.len(),
    decreases s@.len() - pos, 8int,
{
    let p1 = skip(s, pos);
    match parse_free_elem(s, p1, err) {
        Some((e, pe)) => {
            if pos < pe {
                let (rest, end) = parse_seq_rest(s, pe, err);
                proof {
                    lemma_elems_view_cons(e, rest@);
                }
                let ghost rest0 = rest@;
                let mut items = rest;
                items.insert(0, e);
                proof {
                    assert(items@ =~= seq![e] + rest0);
                }
                (items, end)
            } else {
                let mut items: Vec<ast::RuleElement> = Vec::new();
                items.push(e);
                proof {
                    lemma_elems_view_cons(e, Seq::empty());
                    assert(items@ =~= seq![e]);
                }
                (items, pe)
            }
        },
        None => (Vec::new(), pos),
    }
}

/// Parse an unconditional rule element: the entry point of the
/// precedence cascade.
pub fn parse_uncond(s: &[char], pos: usize, err: &mut ParseError) -> (r: Option<
    (ast::RuleElement, usize),
>)
    requires
        pos <= s@.len(),
    ensures
        elem_res_view(r) == spec_uncond(s@, pos as int),
        r matches Some((_, end)) ==> pos < end <= s@.len(),
    decreases s@.len() - pos, 9int,
{
    match parse_free_elem(s, pos, err) {
        Some((e, p1)) => {
            let (rest, end) = parse_seq_rest(s, p1, err);
            if rest.len() == 0 {
                proof {
                    assert(elems_view(rest@) =~= Seq::<model::RuleElement>::empty());
                }
                Some((e, p1))
            } else {
                proof {
                    lemma_elems_view_cons(e, rest@);
                }
                let ghost rest0 = rest@;
                let mut items = rest;
                items.insert(0, e);
                proof {
                    assert(items@ =~= seq![e] + rest0);
                }
                Some(
                    (ast::RuleElement::Sequence { items, span: Span { lo: pos, hi: end } }, end),
                )
            }
        },
        None => None,
    }
}

/// Parse an environment: anchored form first, bare form second.
#[verifier::rlimit(60)]
pub fn parse_environment(s: &[char], pos: usize, err: &mut ParseError) -> (r: Option<
    (ast::Environment, usize),
>)
    requires
        pos <= s@.len(),
    ensures
        env_res_view(r) == spec_environment(s@, pos as int),
        r matches Some((_, end)) ==> pos < end <= s@.len(),
    decreases s@.len() - pos, 10int,
{
    let (before, p1) = match parse_uncond(s, pos, err) {
        Some((e, pe)) => (Some(e), skip(s, pe)),
        None => (None, pos),
    };
    match parse_sym(s, p1, '_', err) {
        Some(p2) => {
            let p3 = skip(s, p2);
            let (after, end) = match parse_uncond(s, p3, err) {
                Some((e, pe)) => (Some(e), pe),
                None => (None, p2),
            };
            Some(
                (
                    ast::Environment::Anchored { before, after, span: Span { lo: pos, hi: end } },
                    end,
                ),
            )
        },
        None => {
            match parse_uncond(s, pos, err) {
                Some((e, end)) => Some(
                    (ast::Environment::Bare { elem: e, span: Span { lo: pos, hi: end } }, end),
                ),
                None => None,
            }
        },
    }
}

#[verifier::rlimit(60)]
fn parse_env_list_rest(s: &[char], pos: usize, err: &mut ParseError) -> (r: (
    Vec<ast::Environment>,
    usize,
))
    requires
        pos <= s@.len(),
    ensures
        (envs_view(r.0@), r.1 as int) == spec_env_list_rest(s@, pos as int),
        pos <= r.1 <= s@.len(),
    decreases s@.len() - pos, 11int,
{
    let p0 = skip(s, pos);
    match parse_sym(s, p0, ',', err) {
        Some(p1) => {
            let p2 = skip(s, p1);
            match parse_environment(s, p2, err) {
                Some((e, p3)) => {
                    let (rest, end) = parse_env_list_rest(s, p3, err);
                    proof {
                        lemma_envs_view_cons(e, rest@);
                    }
                    let ghost rest0 = rest@;
                    let mut items = rest;
                    items.insert(0, e);
                    proof {
                        assert(items@ =~= seq![e] + rest0);
                    }
                    (items, end)
                },
                None => (Vec::new(), pos),
            }
        },
        None => (Vec::new(), pos),
    }
}

#[verifier::rlimit(100)]
#[verifier::spinoff_prover]
fn parse_env_clause(s: &[char], pos: usize, err: &mut ParseError) -> (r: Option<
    (ast::EnvClause, usize),
>)
    requires
        pos <= s@.len(),
    ensures
        clause_res_view(r) == spec_env_clause(s@, pos as int),
        r matches Some((_, end)) ==> pos < end <= s@.len(),
    decreases s@.len() - pos, 12int,
{
    match parse_environment(s, pos, err) {
        Some((e, end)) => Some((ast::EnvClause::Single(Box::new(e)), end)),
        None => {
            match parse_sym(s, pos, '{', err) {
                Some(p1) => {
                    let p2 = skip(s, p1);
                    match parse_environment(s, p2, err) {
                        Some((e, p3)) => {
                            let (rest, p4) = parse_env_list_rest(s, p3, err);
                            proof {
                                lemma_envs_view_cons(e, rest@);
                            }
                            match parse_sym(s, skip(s, p4), '}', err) {
                                Some(end) => {
                                    let ghost rest0 = rest@;
                                    let mut envs = rest;
                                    envs.insert(0, e);
                                    proof {
                                        assert(envs@ =~= seq![e] + rest0);
                                    }
                                    Some(
                                        (
                                            ast::EnvClause::Choice {
                                                envs,
                                                span: Span { lo: pos, hi: end },
                                            },
                                            end,
                                        ),
                                    )
                                },
                                None => None,
                            }
                        },
                        None => None,
                    }
                },
                None => None,
            }
        },
    }
}

fn parse_condition(s: &[char], pos: usize, err: &mut ParseError) -> (r: Option<
    (ast::EnvClause, usize),
>)
    requires
        pos <= s@.len(),
    ensures
        clause_res_view(r) == spec_condition(s@, pos as int),
        r matches Some((_, end)) ==> pos < end <= s@.len(),
    decreases s@.len() - pos, 13int,
{
    match parse_sym(s, pos, '/', err) {
        Some(p1) => {
            let p2 = skip(s, p1);
            parse_env_clause(s, p2, err)
        },
        None => None,
    }
}

fn parse_exclusion(s: &[char], pos: usize, err: &mut ParseError) -> (r: Option<
    (ast::EnvClause, usize),
>)
    requires
        pos <= s@.len(),
    ensures
        clause_res_view(r) == spec_exclusion(s@, pos as int),
        r matches Some((_, end)) ==> pos < end <= s@.len(),
    decreases s@.len() - pos, 13int,
{
    match parse_sym(s, pos, '/', err) {
        Some(p1) => {
            match parse_sym(s, p1, '/', err) {
                Some(p2) => {
                    let p3 = skip(s, p2);
                    parse_env_clause(s, p3, err)
                },
                None => None,
            }
        },
        None => None,
    }
}

/// Parse a compound environment: `/ condition`, `// exclusion`, or both.
#[verifier::rlimit(60)]
pub fn parse_compound_env(s: &[char], pos: usize, err: &mut ParseError) -> (r: Option<
    (ast::CompoundEnvironment, usize),
>)
    requires
        pos <= s@.len(),
    ensures
        cenv_res_view(r) == spec_compound_env(s@, pos as int),
        r matches Some((_, end)) ==> pos < end <= s@.len(),
    decreases s@.len() - pos, 14int,
{
    match parse_condition(s, pos, err) {
        Some((c, p1)) => {
            let p2 = skip(s, p1);
            match parse_exclusion(s, p2, err) {
                Some((x, end)) => Some(
                    (
                        ast::CompoundEnvironment {
                            condition: Some(c),
                            exclusion: Some(x),
                            span: Span { lo: pos, hi: end },
                        },
                        end,
                    ),
                ),
                None => Some(
                    (
                        ast::CompoundEnvironment {
                            condition: Some(c),
                            exclusion: None,
                            span: Span { lo: pos, hi: p1 },
                        },
                        p1,
                    ),
                ),
            }
        },
        None => {
            match parse_exclusion(s, pos, err) {
                Some((x, end)) => Some(
                    (
                        ast::CompoundEnvironment {
                            condition: None,
                            exclusion: Some(x),
                            span: Span { lo: pos, hi: end },
                        },
                        end,
                    ),
                ),
                None => None,
            }
        },
    }
}

/// Parse a rule element: an unconditional element with an optional
/// compound environment.
#[verifier::rlimit(60)]
pub fn parse_rule_element(s: &[char], pos: usize, err: &mut ParseError) -> (r: Option<
    (ast::RuleElement, usize),
>)
    requires
        pos <= s@.len(),
    ensures
        elem_res_view(r) == spec_rule_element(s@, pos as int),
        r matches Some((_, end)) ==> pos < end <= s@.len(),
    decreases s@.len() - pos, 15int,
{
    match parse_uncond(s, pos, err) {
        Some((e, p1)) => {
            let p2 = skip(s, p1);
            match parse_compound_env(s, p2, err) {
                Some((env, end)) => Some(
                    (
                        ast::RuleElement::WithEnv {
                            inner: Box::new(e),
                            env,
                            span: Span { lo: pos, hi: end },
                        },
                        end,
                    ),
                ),
                None => Some((e, p1)),
            }
        },
        None => None,
    }
}

} // verus!
