//! The declaration grammar and the statement dispatcher: the top-level
//! forms of a rule file, each built from the scanner primitives and the
//! pattern, matrix and environment grammars, and each defined twice — a
//! spec grammar function over the text, and an executable parser proved
//! equal to it.

use vstd::prelude::*;
use crate::ast;
use crate::ast::{Expected, ParseError, Span};
use crate::elements::{
    elem_res_view, parse_compound_env, parse_matrix, parse_rule_element, parse_uncond,
    spec_compound_env, spec_matrix, spec_rule_element, spec_uncond,
};
use crate::elements::lemma_elems_view_cons;
use crate::model;
use crate::model::{
    block_elem_view, block_view, branch_view, branches_view, class_item_view, class_items_view,
    dmod_view, dmods_view, elem_view, elems_view, expr_view, exprs_view, feature_decl_view,
    fvalue_view, fvalues_view, matrix_view, modifier_view, modifiers_view, plus_feature_view,
    rulename_view, segments_view, span_view, stmt_view, stmts_view, syl_expr_view,
    syl_exprs_view, syl_pattern_view, text_token_view, texts_view,
};
use crate::scan::{
    parse_kw, parse_name, parse_sym, parse_text_token, skip, spec_kw, spec_name, spec_noted,
    spec_skip, spec_sym, spec_text_token,
};

verus! {

pub open spec fn fdecls_view(v: Seq<ast::FeatureDecl>) -> Seq<model::FeatureDecl>
    decreases v,
{
    if v.len() == 0 {
        Seq::empty()
    } else {
        seq![feature_decl_view(v[0])] + fdecls_view(v.subrange(1, v.len() as int))
    }
}

pub proof fn lemma_fdecls_view_cons(d: ast::FeatureDecl, rest: Seq<ast::FeatureDecl>)
    ensures
        fdecls_view(seq![d] + rest) == seq![feature_decl_view(d)] + fdecls_view(rest),
        fdecls_view(seq![d]) == seq![feature_decl_view(d)],
{
    let full = seq![d] + rest;
    assert(full.len() == 1 + rest.len());
    assert(full[0] == d);
    assert(full.subrange(1, full.len() as int) =~= rest);
    assert(fdecls_view(full) == seq![feature_decl_view(full[0])] + fdecls_view(
        full.subrange(1, full.len() as int),
    ));
    let single = seq![d];
    assert(single.subrange(1, 1) =~= Seq::<ast::FeatureDecl>::empty());
    assert(fdecls_view(single) == seq![feature_decl_view(single[0])] + fdecls_view(
        single.subrange(1, 1),
    ));
    assert(seq![feature_decl_view(d)] + Seq::<model::FeatureDecl>::empty() =~= seq![
        feature_decl_view(d),
    ]);
}

pub open spec fn fdecls_res_view(r: Option<(Vec<ast::FeatureDecl>, usize)>) -> Option<
    (Seq<model::FeatureDecl>, int),
> {
    match r {
        Some((v, p)) => Some((fdecls_view(v@), p as int)),
        None => None,
    }
}

/// `(Syllable)`, the keyword's first letter in either case.
pub open spec fn spec_syl_modifier(s: Seq<char>, pos: int) -> Option<int> {
    match spec_sym(s, pos, '(') {
        Some(p1) => spec_kw(s, p1, "Syllable)"@),
        None => None,
    }
}

fn parse_syl_modifier(s: &[char], pos: usize, err: &mut ParseError) -> (r: Option<usize>)
    requires
        pos <= s@.len(),
    ensures
        match (r, spec_syl_modifier(s@, pos as int)) {
            (Some(end), Some(mend)) => end == mend && pos < end <= s@.len(),
            (None, None) => true,
            _ => false,
        },
        r is None && pos == s@.len() ==> spec_noted(
            *old(err),
            *final(err),
            pos as int,
            Expected::Symbol('('),
        ),
{
    match parse_sym(s, pos, '(', err) {
        Some(p1) => parse_kw(s, p1, "Syllable)", err),
        None => None,
    }
}

/// One boolean feature of a declaration list: an optional `(Syllable)`
/// scope, an optional `+` mark, and the feature's name.
pub open spec fn spec_plus_feature(s: Seq<char>, pos: int) -> Option<(model::PlusFeature, int)> {
    let (syl, p1) = match spec_syl_modifier(s, pos) {
        Some(q) => (true, spec_skip(s, q)),
        None => (false, pos),
    };
    if 0 <= p1 <= s.len() {
        let (plus, p2) = match spec_sym(s, p1, '+') {
            Some(q) => (true, q),
            None => (false, p1),
        };
        match spec_name(s, p2) {
            Some((n, end)) => Some(
                (
                    model::PlusFeature {
                        syllable: syl,
                        plus,
                        name: n,
                        span: model::Span { lo: pos, hi: end },
                    },
                    end,
                ),
            ),
            None => None,
        }
    } else {
        None
    }
}

fn parse_plus_feature(s: &[char], pos: usize, err: &mut ParseError) -> (r: Option<
    (ast::PlusFeature, usize),
>)
    requires
        pos <= s@.len(),
    ensures
        match (r, spec_plus_feature(s@, pos as int)) {
            (Some((f, end)), Some((mf, mend))) => plus_feature_view(f) == mf && end == mend
                && pos < end <= s@.len(),
            (None, None) => true,
            _ => false,
        },
        r is None && pos == s@.len() && old(err).pos <= pos ==> (final(err).pos == pos
            && final(err).expected@.len() > 0
            && final(err).expected@.last() == Expected::Name),
{
    let (syl, p1) = match parse_syl_modifier(s, pos, err) {
        Some(q) => (true, skip(s, q)),
        None => (false, pos),
    };
    let (plus, p2) = match parse_sym(s, p1, '+', err) {
        Some(q) => (true, q),
        None => (false, p1),
    };
    match parse_name(s, p2, err) {
        Some((n, end)) => Some(
            (
                ast::PlusFeature { syllable: syl, plus, name: n, span: Span { lo: pos, hi: end } },
                end,
            ),
        ),
        None => None,
    }
}

/// Further boolean features, each behind a comma; a comma not followed by
/// a feature is left unconsumed.
pub open spec fn spec_plus_rest(s: Seq<char>, pos: int) -> (Seq<model::FeatureDecl>, int)
    decreases s.len() - pos,
{
    if !(0 <= pos <= s.len()) {
        (Seq::empty(), pos)
    } else {
        let p0 = spec_skip(s, pos);
        if pos <= p0 <= s.len() {
            match spec_sym(s, p0, ',') {
                Some(p1) => {
                    let p2 = spec_skip(s, p1);
                    if p1 <= p2 <= s.len() {
                        match spec_plus_feature(s, p2) {
                            Some((f, p3)) => {
                                if p2 < p3 <= s.len() && pos < p3 {
                                    let (rest, end) = spec_plus_rest(s, p3);
                                    (seq![model::FeatureDecl::Bool(f)] + rest, end)
                                } else {
                                    (Seq::empty(), pos)
                                }
                            },
                            None => (Seq::empty(), pos),
                        }
                    } else {
                        (Seq::empty(), pos)
                    }
                },
                None => (Seq::empty(), pos),
            }
        } else {
            (Seq::empty(), pos)
        }
    }
}

fn parse_plus_rest(s: &[char], pos: usize, err: &mut ParseError) -> (r: (
    Vec<ast::FeatureDecl>,
    usize,
))
    requires
        pos <= s@.len(),
    ensures
        (fdecls_view(r.0@), r.1 as int) == spec_plus_rest(s@, pos as int),
        pos <= r.1 <= s@.len(),
    decreases s@.len() - pos,
{
    let p0 = skip(s, pos);
    match parse_sym(s, p0, ',', err) {
        Some(p1) => {
            let p2 = skip(s, p1);
            match parse_plus_feature(s, p2, err) {
                Some((f, p3)) => {
                    let (rest, end) = parse_plus_rest(s, p3, err);
                    let d = ast::FeatureDecl::Bool(f);
                    proof {
                        lemma_fdecls_view_cons(d, rest@);
                    }
                    let ghost rest0 = rest@;
                    let mut items = rest;
                    items.insert(0, d);
                    proof {
                        assert(items@ =~= seq![d] + rest0);
                    }
                    (items, end)
                },
                None => (Vec::new(), pos),
            }
        },
        None => (Vec::new(), pos),
    }
}


/// One named value of a multi-valued feature axis.
pub open spec fn spec_feature_value(s: Seq<char>, pos: int) -> Option<(model::FeatureValue, int)> {
    match spec_name(s, pos) {
        Some((n, end)) => Some(
            (model::FeatureValue { name: n, span: model::Span { lo: pos, hi: end } }, end),
        ),
        None => None,
    }
}

fn parse_feature_value(s: &[char], pos: usize, err: &mut ParseError) -> (r: Option<
    (ast::FeatureValue, usize),
>)
    requires
        pos <= s@.len(),
    ensures
        match (r, spec_feature_value(s@, pos as int)) {
            (Some((v, end)), Some((mv, mend))) => fvalue_view(v) == mv && end == mend && pos < end
                <= s@.len(),
            (None, None) => true,
            _ => false,
        },
{
    match parse_name(s, pos, err) {
        Some((n, end)) => Some((ast::FeatureValue { name: n, span: Span { lo: pos, hi: end } }, end)),
        None => None,
    }
}

pub proof fn lemma_fvalues_view_cons(v: ast::FeatureValue, rest: Seq<ast::FeatureValue>)
    ensures
        fvalues_view(seq![v] + rest) == seq![fvalue_view(v)] + fvalues_view(rest),
{
    let full = seq![v] + rest;
    assert(full.len() == 1 + rest.len());
    assert(full[0] == v);
    assert(full.subrange(1, full.len() as int) =~= rest);
    assert(fvalues_view(full) == seq![fvalue_view(full[0])] + fvalues_view(
        full.subrange(1, full.len() as int),
    ));
}

/// Further axis values, each behind a comma.
pub open spec fn spec_fvalue_rest(s: Seq<char>, pos: int) -> (Seq<model::FeatureValue>, int)
    decreases s.len() - pos,
{
    if !(0 <= pos <= s.len()) {
        (Seq::empty(), pos)
    } else {
        let p0 = spec_skip(s, pos);
        if pos <= p0 <= s.len() {
            match spec_sym(s, p0, ',') {
                Some(p1) => {
                    let p2 = spec_skip(s, p1);
                    if p1 <= p2 <= s.len() {
                        match spec_feature_value(s, p2) {
                            Some((v, p3)) => {
                                if p2 < p3 <= s.len() && pos < p3 {
                                    let (rest, end) = spec_fvalue_rest(s, p3);
                                    (seq![v] + rest, end)
                                } else {
                                    (Seq::empty(), pos)
                                }
                            },
                            None => (Seq::empty(), pos),
                        }
                    } else {
                        (Seq::empty(), pos)
                    }
                },
                None => (Seq::empty(), pos),
            }
        } else {
            (Seq::empty(), pos)
        }
    }
}

fn parse_fvalue_rest(s: &[char], pos: usize, err: &mut ParseError) -> (r: (
    Vec<ast::FeatureValue>,
    usize,
))
    requires
        pos <= s@.len(),
    ensures
        (fvalues_view(r.0@), r.1 as int) == spec_fvalue_rest(s@, pos as int),
        pos <= r.1 <= s@.len(),
    decreases s@.len() - pos,
{
    let p0 = skip(s, pos);
    match parse_sym(s, p0, ',', err) {
        Some(p1) => {
            let p2 = skip(s, p1);
            match parse_feature_value(s, p2, err) {
                Some((v, p3)) => {
                    let (rest, end) = parse_fvalue_rest(s, p3, err);
                    proof {
                        lemma_fvalues_view_cons(v, rest@);
                    }
                    let ghost rest0 = rest@;
                    let mut items = rest;
                    items.insert(0, v);
                    proof {
                        assert(items@ =~= seq![v] + rest0);
                    }
                    (items, end)
                },
                None => (Vec::new(), pos),
            }
        },
        None => (Vec::new(), pos),
    }
}

/// `* value ,`: the optional null-alias value of an axis. The result
/// position stands after the comma and its separation.
pub open spec fn spec_null_alias(s: Seq<char>, pos: int) -> Option<(model::FeatureValue, int)> {
    match spec_sym(s, pos, '*') {
        Some(p1) => {
            let p2 = spec_skip(s, p1);
            if p1 <= p2 <= s.len() {
                match spec_feature_value(s, p2) {
                    Some((v, p3)) => {
                        let p4 = spec_skip(s, p3);
                        if p3 <= p4 <= s.len() {
                            match spec_sym(s, p4, ',') {
                                Some(p5) => Some((v, spec_skip(s, p5))),
                                None => None,
                            }
                        } else {
                            None
                        }
                    },
                    None => None,
                }
            } else {
                None
            }
        },
        None => None,
    }
}

fn parse_null_alias(s: &[char], pos: usize, err: &mut ParseError) -> (r: Option<
    (ast::FeatureValue, usize),
>)
    requires
        pos <= s@.len(),
    ensures
        match (r, spec_null_alias(s@, pos as int)) {
            (Some((v, end)), Some((mv, mend))) => fvalue_view(v) == mv && end == mend && pos < end
                <= s@.len(),
            (None, None) => true,
            _ => false,
        },
{
    match parse_sym(s, pos, '*', err) {
        Some(p1) => {
            let p2 = skip(s, p1);
            match parse_feature_value(s, p2, err) {
                Some((v, p3)) => {
                    let p4 = skip(s, p3);
                    match parse_sym(s, p4, ',', err) {
                        Some(p5) => Some((v, skip(s, p5))),
                        None => None,
                    }
                },
                None => None,
            }
        },
        None => None,
    }
}

/// A multi-valued feature axis: an optional `(Syllable)` scope, the
/// axis name, then a parenthesized value list with an optional leading
/// null alias.
pub open spec fn spec_valued_feature(s: Seq<char>, pos: int) -> Option<
    (model::ValuedFeature, int),
> {
    let (syl, p1) = match spec_syl_modifier(s, pos) {
        Some(q) => (true, spec_skip(s, q)),
        None => (false, pos),
    };
    if 0 <= p1 <= s.len() {
        match spec_name(s, p1) {
            Some((n, p2)) => {
                let p3 = spec_skip(s, p2);
                if p2 <= p3 <= s.len() {
                    match spec_sym(s, p3, '(') {
                        Some(p4) => {
                            let p5 = spec_skip(s, p4);
                            if p4 <= p5 <= s.len() {
                                let (alias, p6) = match spec_null_alias(s, p5) {
                                    Some((a, q)) => (Some(a), q),
                                    None => (None, p5),
                                };
                                if p5 <= p6 <= s.len() {
                                    match spec_feature_value(s, p6) {
                                        Some((v0, p7)) => {
                                            let (rest, p8) = spec_fvalue_rest(s, p7);
                                            if p7 <= p8 <= s.len() {
                                                let p9 = spec_skip(s, p8);
                                                if p8 <= p9 <= s.len() {
                                                    match spec_sym(s, p9, ')') {
                                                        Some(end) => Some(
                                                            (
                                                                model::ValuedFeature {
                                                                    syllable: syl,
                                                                    name: n,
                                                                    null_alias: alias,
                                                                    values: seq![v0] + rest,
                                                                    span: model::Span {
                                                                        lo: pos,
                                                                        hi: end,
                                                                    },
                                                                },
                                                                end,
                                                            ),
                                                        ),
                                                        None => None,
                                                    }
                                                } else {
                                                    None
                                                }
                                            } else {
                                                None
                                            }
                                        },
                                        None => None,
                                    }
                                } else {
                                    None
                                }
                            } else {
                                None
                            }
                        },
                        None => None,
                    }
                } else {
                    None
                }
            },
            None => None,
        }
    } else {
        None
    }
}

fn parse_valued_feature(s: &[char], pos: usize, err: &mut ParseError) -> (r: Option<
    (ast::ValuedFeature, usize),
>)
    requires
        pos <= s@.len(),
    ensures
        match (r, spec_valued_feature(s@, pos as int)) {
            (Some((v, end)), Some((mv, mend))) => (feature_decl_view(ast::FeatureDecl::Valued(v))
                == model::FeatureDecl::Valued(mv)) && end == mend && pos < end <= s@.len(),
            (None, None) => true,
            _ => false,
        },
        r is None && pos == s@.len() && old(err).pos <= pos ==> final(err).pos == pos,
{
    let (syl, p1) = match parse_syl_modifier(s, pos, err) {
        Some(q) => (true, skip(s, q)),
        None => (false, pos),
    };
    match parse_name(s, p1, err) {
        Some((n, p2)) => {
            let p3 = skip(s, p2);
            match parse_sym(s, p3, '(', err) {
                Some(p4) => {
                    let p5 = skip(s, p4);
                    let (alias, p6) = match parse_null_alias(s, p5, err) {
                        Some((a, q)) => (Some(a), q),
                        None => (None, p5),
                    };
                    match parse_feature_value(s, p6, err) {
                        Some((v0, p7)) => {
                            let (rest, p8) = parse_fvalue_rest(s, p7, err);
                            let p9 = skip(s, p8);
                            match parse_sym(s, p9, ')', err) {
                                Some(end) => {
                                    proof {
                                        lemma_fvalues_view_cons(v0, rest@);
                                    }
                                    let ghost rest0 = rest@;
                                    let mut values = rest;
                                    values.insert(0, v0);
                                    proof {
                                        assert(values@ =~= seq![v0] + rest0);
                                    }
                                    Some(
                                        (
                                            ast::ValuedFeature {
                                                syllable: syl,
                                                name: n,
                                                null_alias: alias,
                                                values,
                                                span: Span { lo: pos, hi: end },
                                            },
                                            end,
                                        ),
                                    )
                                },
                                None => None,
                            }
                        },
                        None => None,
                    }
                },
                None => None,
            }
        },
        None => None,
    }
}

/// A feature declaration: the `Feature` keyword, then a multi-valued
/// axis, or one or more boolean features separated by commas. Each
/// boolean feature becomes a declaration of its own, in file order.
#[verifier::opaque]
pub open spec fn spec_feature_decl(s: Seq<char>, pos: int) -> Option<
    (Seq<model::FeatureDecl>, int),
> {
    match spec_kw(s, pos, "Feature"@) {
        Some(pk) => {
            let p0 = spec_skip(s, pk);
            if pk <= p0 <= s.len() {
                if spec_valued_feature(s, p0) is Some {
                    let (vf, vend) = spec_valued_feature(s, p0)->0;
                    if p0 < vend <= s.len() {
                        Some((seq![model::FeatureDecl::Valued(vf)], vend))
                    } else {
                        None
                    }
                } else {
                    match spec_plus_feature(s, p0) {
                        Some((f, p1)) => {
                            if p0 < p1 <= s.len() {
                                let (rest, end) = spec_plus_rest(s, p1);
                                if rest.len() == 0 {
                                    Some((seq![model::FeatureDecl::Bool(f)], p1))
                                } else {
                                    Some((seq![model::FeatureDecl::Bool(f)] + rest, end))
                                }
                            } else {
                                None
                            }
                        },
                        None => None,
                    }
                }
            } else {
                None
            }
        },
        None => None,
    }
}

pub fn parse_feature_decl(s: &[char], pos: usize, err: &mut ParseError) -> (r: Option<
    (Vec<ast::FeatureDecl>, usize),
>)
    requires
        pos <= s@.len(),
    ensures
        fdecls_res_view(r) == spec_feature_decl(s@, pos as int),
        r matches Some((_, end)) ==> pos < end <= s@.len(),
        ({
            let pk = spec_kw(s@, pos as int, "Feature"@);
            (r is None && pk is Some && spec_skip(s@, pk->0) == s@.len() && old(err).pos
                <= s@.len()) ==> (final(err).pos == s@.len() && final(err).expected@.len() > 0
                && final(err).expected@.last() == Expected::Name)
        }),
{
    proof {
        reveal(spec_feature_decl);
    }    match parse_kw(s, pos, "Feature", err) {
        Some(pk) => {
            let p0 = skip(s, pk);
            match parse_valued_feature(s, p0, err) {
                Some((vf, vend)) => {
                    let mut items: Vec<ast::FeatureDecl> = Vec::new();
                    let d = ast::FeatureDecl::Valued(vf);
                    proof {
                        lemma_fdecls_view_cons(d, Seq::<ast::FeatureDecl>::empty());
                    }
                    items.push(d);
                    proof {
                        assert(items@ =~= seq![d]);
                    }
                    return Some((items, vend));
                },
                None => {},
            }
            match parse_plus_feature(s, p0, err) {
                Some((f, p1)) => {
                    let (rest, end) = parse_plus_rest(s, p1, err);
                    let d = ast::FeatureDecl::Bool(f);
                    proof {
                        lemma_fdecls_view_cons(d, rest@);
                    }
                    if rest.len() == 0 {
                        let mut items: Vec<ast::FeatureDecl> = Vec::new();
                        items.push(d);
                        proof {
                            assert(items@ =~= seq![d]);
                        }
                        Some((items, p1))
                    } else {
                        let ghost rest0 = rest@;
                        let mut items = rest;
                        items.insert(0, d);
                        proof {
                            assert(items@ =~= seq![d] + rest0);
                        }
                        Some((items, end))
                    }
                },
                None => None,
            }
        },
        None => None,
    }
}

// ---------------------------------------------------------------------------
// Views of declaration nodes that carry several fields.
// ---------------------------------------------------------------------------

pub open spec fn element_decl_view(d: ast::ElementDecl) -> model::ElementDecl {
    model::ElementDecl {
        name: d.name@,
        element: elem_view(d.element),
        span: span_view(d.span),
    }
}

pub open spec fn class_decl_view(d: ast::ClassDecl) -> model::ClassDecl {
    model::ClassDecl {
        name: d.name@,
        items: class_items_view(d.items@),
        span: span_view(d.span),
    }
}

pub open spec fn diacritic_decl_view(d: ast::DiacriticDecl) -> model::DiacriticDecl {
    model::DiacriticDecl {
        text: text_token_view(d.text),
        pre_modifiers: dmods_view(d.pre_modifiers@),
        matrix: matrix_view(d.matrix),
        post_modifiers: dmods_view(d.post_modifiers@),
        span: span_view(d.span),
    }
}

pub proof fn lemma_texts_view_cons(t: ast::TextToken, rest: Seq<ast::TextToken>)
    ensures
        texts_view(seq![t] + rest) == seq![text_token_view(t)] + texts_view(rest),
{
    let full = seq![t] + rest;
    assert(full.len() == 1 + rest.len());
    assert(full[0] == t);
    assert(full.subrange(1, full.len() as int) =~= rest);
    assert(texts_view(full) == seq![text_token_view(full[0])] + texts_view(
        full.subrange(1, full.len() as int),
    ));
}

pub proof fn lemma_class_items_view_cons(c: ast::ClassItem, rest: Seq<ast::ClassItem>)
    ensures
        class_items_view(seq![c] + rest) == seq![class_item_view(c)] + class_items_view(rest),
{
    let full = seq![c] + rest;
    assert(full.len() == 1 + rest.len());
    assert(full[0] == c);
    assert(full.subrange(1, full.len() as int) =~= rest);
    assert(class_items_view(full) == seq![class_item_view(full[0])] + class_items_view(
        full.subrange(1, full.len() as int),
    ));
}

pub proof fn lemma_dmods_view_cons(m: ast::DiacriticModifier, rest: Seq<ast::DiacriticModifier>)
    ensures
        dmods_view(seq![m] + rest) == seq![dmod_view(m)] + dmods_view(rest),
{
    let full = seq![m] + rest;
    assert(full.len() == 1 + rest.len());
    assert(full[0] == m);
    assert(full.subrange(1, full.len() as int) =~= rest);
    assert(dmods_view(full) == seq![dmod_view(full[0])] + dmods_view(
        full.subrange(1, full.len() as int),
    ));
}

pub proof fn lemma_syl_exprs_view_cons(
    e: ast::SyllableExpression,
    rest: Seq<ast::SyllableExpression>,
)
    ensures
        syl_exprs_view(seq![e] + rest) == seq![syl_expr_view(e)] + syl_exprs_view(rest),
{
    let full = seq![e] + rest;
    assert(full.len() == 1 + rest.len());
    assert(full[0] == e);
    assert(full.subrange(1, full.len() as int) =~= rest);
    assert(syl_exprs_view(full) == seq![syl_expr_view(full[0])] + syl_exprs_view(
        full.subrange(1, full.len() as int),
    ));
}

// ---------------------------------------------------------------------------
// Element declarations.
// ---------------------------------------------------------------------------

/// `Element name element`.
#[verifier::opaque]
pub open spec fn spec_element_decl(s: Seq<char>, pos: int) -> Option<(model::ElementDecl, int)> {
    match spec_kw(s, pos, "Element"@) {
        Some(pk) => {
            let p0 = spec_skip(s, pk);
            if pk <= p0 <= s.len() {
                match spec_name(s, p0) {
                    Some((n, p1)) => {
                        let p2 = spec_skip(s, p1);
                        if p1 <= p2 <= s.len() {
                            match spec_rule_element(s, p2) {
                                Some((e, end)) => {
                                    if p2 < end <= s.len() {
                                        Some(
                                            (
                                                model::ElementDecl {
                                                    name: n,
                                                    element: e,
                                                    span: model::Span { lo: pos, hi: end },
                                                },
                                                end,
                                            ),
                                        )
                                    } else {
                                        None
                                    }
                                },
                                None => None,
                            }
                        } else {
                            None
                        }
                    },
                    None => None,
                }
            } else {
                None
            }
        },
        None => None,
    }
}

pub fn parse_element_decl(s: &[char], pos: usize, err: &mut ParseError) -> (r: Option<
    (ast::ElementDecl, usize),
>)
    requires
        pos <= s@.len(),
    ensures
        match (r, spec_element_decl(s@, pos as int)) {
            (Some((d, end)), Some((md, mend))) => element_decl_view(d) == md && end == mend && pos
                < end <= s@.len(),
            (None, None) => true,
            _ => false,
        },
{
    proof {
        reveal(spec_element_decl);
    }    match parse_kw(s, pos, "Element", err) {
        Some(pk) => {
            let p0 = skip(s, pk);
            match parse_name(s, p0, err) {
                Some((n, p1)) => {
                    let p2 = skip(s, p1);
                    match parse_rule_element(s, p2, err) {
                        Some((e, end)) => Some(
                            (
                                ast::ElementDecl {
                                    name: n,
                                    element: e,
                                    span: Span { lo: pos, hi: end },
                                },
                                end,
                            ),
                        ),
                        None => None,
                    }
                },
                None => None,
            }
        },
        None => None,
    }
}

// ---------------------------------------------------------------------------
// Class declarations.
// ---------------------------------------------------------------------------

/// One member of a class: an `@name` element reference or literal text.
pub open spec fn spec_class_item(s: Seq<char>, pos: int) -> Option<(model::ClassItem, int)> {
    if spec_sym(s, pos, '@') is Some && spec_name(s, pos + 1) is Some {
        let (n, end) = spec_name(s, pos + 1)->0;
        Some((model::ClassItem::Ref { name: n, span: model::Span { lo: pos, hi: end } }, end))
    } else {
        match spec_text_token(s, pos) {
            Some((c, neg, end)) => Some(
                (
                    model::ClassItem::Text(
                        model::TextToken {
                            content: c,
                            negated: neg,
                            span: model::Span { lo: pos, hi: end },
                        },
                    ),
                    end,
                ),
            ),
            None => None,
        }
    }
}

fn parse_class_item(s: &[char], pos: usize, err: &mut ParseError) -> (r: Option<
    (ast::ClassItem, usize),
>)
    requires
        pos <= s@.len(),
    ensures
        match (r, spec_class_item(s@, pos as int)) {
            (Some((c, end)), Some((mc, mend))) => class_item_view(c) == mc && end == mend && pos
                < end <= s@.len(),
            (None, None) => true,
            _ => false,
        },
{
    match parse_sym(s, pos, '@', err) {
        Some(p1) => {
            match parse_name(s, p1, err) {
                Some((n, end)) => {
                    return Some(
                        (ast::ClassItem::Ref { name: n, span: Span { lo: pos, hi: end } }, end),
                    );
                },
                None => {},
            }
        },
        None => {},
    }
    match parse_text_token(s, pos, err) {
        Some(t) => {
            let end = t.span.hi;
            Some((ast::ClassItem::Text(t), end))
        },
        None => None,
    }
}

/// Further class members, each behind a comma.
pub open spec fn spec_class_rest(s: Seq<char>, pos: int) -> (Seq<model::ClassItem>, int)
    decreases s.len() - pos,
{
    if !(0 <= pos <= s.len()) {
        (Seq::empty(), pos)
    } else {
        let p0 = spec_skip(s, pos);
        if pos <= p0 <= s.len() {
            match spec_sym(s, p0, ',') {
                Some(p1) => {
                    let p2 = spec_skip(s, p1);
                    if p1 <= p2 <= s.len() {
                        match spec_class_item(s, p2) {
                            Some((c, p3)) => {
                                if p2 < p3 <= s.len() && pos < p3 {
                                    let (rest, end) = spec_class_rest(s, p3);
                                    (seq![c] + rest, end)
                                } else {
                                    (Seq::empty(), pos)
                                }
                            },
                            None => (Seq::empty(), pos),
                        }
                    } else {
                        (Seq::empty(), pos)
                    }
                },
                None => (Seq::empty(), pos),
            }
        } else {
            (Seq::empty(), pos)
        }
    }
}

fn parse_class_rest(s: &[char], pos: usize, err: &mut ParseError) -> (r: (
    Vec<ast::ClassItem>,
    usize,
))
    requires
        pos <= s@.len(),
    ensures
        (class_items_view(r.0@), r.1 as int) == spec_class_rest(s@, pos as int),
        pos <= r.1 <= s@.len(),
    decreases s@.len() - pos,
{
    let p0 = skip(s, pos);
    match parse_sym(s, p0, ',', err) {
        Some(p1) => {
            let p2 = skip(s, p1);
            match parse_class_item(s, p2, err) {
                Some((c, p3)) => {
                    let (rest, end) = parse_class_rest(s, p3, err);
                    proof {
                        lemma_class_items_view_cons(c, rest@);
                    }
                    let ghost rest0 = rest@;
                    let mut items = rest;
                    items.insert(0, c);
                    proof {
                        assert(items@ =~= seq![c] + rest0);
                    }
                    (items, end)
                },
                None => (Vec::new(), pos),
            }
        },
        None => (Vec::new(), pos),
    }
}

/// `Class name { item, item, ... }`, a trailing separator tolerated.
#[verifier::opaque]
pub open spec fn spec_class_decl(s: Seq<char>, pos: int) -> Option<(model::ClassDecl, int)> {
    match spec_kw(s, pos, "Class"@) {
        Some(pk) => {
            let p0 = spec_skip(s, pk);
            if pk <= p0 <= s.len() {
                match spec_name(s, p0) {
                    Some((n, p1)) => {
                        let p2 = spec_skip(s, p1);
                        if p1 <= p2 <= s.len() {
                            match spec_sym(s, p2, '{') {
                                Some(p3) => {
                                    let p4 = spec_skip(s, p3);
                                    if p3 <= p4 <= s.len() {
                                        match spec_class_item(s, p4) {
                                            Some((i0, p5)) => {
                                                if p4 < p5 <= s.len() {
                                                    let (rest, p6) = spec_class_rest(s, p5);
                                                    if p5 <= p6 <= s.len() {
                                                        let p7 = spec_skip(s, p6);
                                                        if p6 <= p7 <= s.len() {
                                                            let p8 = match spec_sym(s, p7, ',') {
                                                                Some(q) => spec_skip(s, q),
                                                                None => p7,
                                                            };
                                                            if p7 <= p8 <= s.len() {
                                                                match spec_sym(s, p8, '}') {
                                                                    Some(end) => Some(
                                                                        (
                                                                            model::ClassDecl {
                                                                                name: n,
                                                                                items: seq![i0]
                                                                                    + rest,
                                                                                span: model::Span {
                                                                                    lo: pos,
                                                                                    hi: end,
                                                                                },
                                                                            },
                                                                            end,
                                                                        ),
                                                                    ),
                                                                    None => None,
                                                                }
                                                            } else {
                                                                None
                                                            }
                                                        } else {
                                                            None
                                                        }
                                                    } else {
                                                        None
                                                    }
                                                } else {
                                                    None
                                                }
                                            },
                                            None => None,
                                        }
                                    } else {
                                        None
                                    }
                                },
                                None => None,
                            }
                        } else {
                            None
                        }
                    },
                    None => None,
                }
            } else {
                None
            }
        },
        None => None,
    }
}

pub fn parse_class_decl(s: &[char], pos: usize, err: &mut ParseError) -> (r: Option<
    (ast::ClassDecl, usize),
>)
    requires
        pos <= s@.len(),
    ensures
        match (r, spec_class_decl(s@, pos as int)) {
            (Some((d, end)), Some((md, mend))) => class_decl_view(d) == md && end == mend && pos
                < end <= s@.len(),
            (None, None) => true,
            _ => false,
        },
{
    proof {
        reveal(spec_class_decl);
    }    match parse_kw(s, pos, "Class", err) {
        Some(pk) => {
            let p0 = skip(s, pk);
            match parse_name(s, p0, err) {
                Some((n, p1)) => {
                    let p2 = skip(s, p1);
                    match parse_sym(s, p2, '{', err) {
                        Some(p3) => {
                            let p4 = skip(s, p3);
                            match parse_class_item(s, p4, err) {
                                Some((i0, p5)) => {
                                    let (rest, p6) = parse_class_rest(s, p5, err);
                                    let p7 = skip(s, p6);
                                    let p8 = match parse_sym(s, p7, ',', err) {
                                        Some(q) => skip(s, q),
                                        None => p7,
                                    };
                                    match parse_sym(s, p8, '}', err) {
                                        Some(end) => {
                                            proof {
                                                lemma_class_items_view_cons(i0, rest@);
                                            }
                                            let ghost rest0 = rest@;
                                            let mut items = rest;
                                            items.insert(0, i0);
                                            proof {
                                                assert(items@ =~= seq![i0] + rest0);
                                            }
                                            Some(
                                                (
                                                    ast::ClassDecl {
                                                        name: n,
                                                        items,
                                                        span: Span { lo: pos, hi: end },
                                                    },
                                                    end,
                                                ),
                                            )
                                        },
                                        None => None,
                                    }
                                },
                                None => None,
                            }
                        },
                        None => None,
                    }
                },
                None => None,
            }
        },
        None => None,
    }
}

// ---------------------------------------------------------------------------
// Symbol declarations.
// ---------------------------------------------------------------------------

/// Further symbol names, each behind a comma.
pub open spec fn spec_texts_rest(s: Seq<char>, pos: int) -> (Seq<model::TextToken>, int)
    decreases s.len() - pos,
{
    if !(0 <= pos <= s.len()) {
        (Seq::empty(), pos)
    } else {
        let p0 = spec_skip(s, pos);
        if pos <= p0 <= s.len() {
            match spec_sym(s, p0, ',') {
                Some(p1) => {
                    let p2 = spec_skip(s, p1);
                    if p1 <= p2 <= s.len() {
                        match spec_text_token(s, p2) {
                            Some((c, neg, p3)) => {
                                if p2 < p3 <= s.len() && pos < p3 {
                                    let (rest, end) = spec_texts_rest(s, p3);
                                    (
                                        seq![
                                            model::TextToken {
                                                content: c,
                                                negated: neg,
                                                span: model::Span { lo: p2, hi: p3 },
                                            },
                                        ] + rest,
                                        end,
                                    )
                                } else {
                                    (Seq::empty(), pos)
                                }
                            },
                            None => (Seq::empty(), pos),
                        }
                    } else {
                        (Seq::empty(), pos)
                    }
                },
                None => (Seq::empty(), pos),
            }
        } else {
            (Seq::empty(), pos)
        }
    }
}

fn parse_texts_rest(s: &[char], pos: usize, err: &mut ParseError) -> (r: (
    Vec<ast::TextToken>,
    usize,
))
    requires
        pos <= s@.len(),
    ensures
        (texts_view(r.0@), r.1 as int) == spec_texts_rest(s@, pos as int),
        pos <= r.1 <= s@.len(),
    decreases s@.len() - pos,
{
    let p0 = skip(s, pos);
    match parse_sym(s, p0, ',', err) {
        Some(p1) => {
            let p2 = skip(s, p1);
            match parse_text_token(s, p2, err) {
                Some(t) => {
                    let p3 = t.span.hi;
                    let (rest, end) = parse_texts_rest(s, p3, err);
                    proof {
                        lemma_texts_view_cons(t, rest@);
                    }
                    let ghost rest0 = rest@;
                    let mut items = rest;
                    items.insert(0, t);
                    proof {
                        assert(items@ =~= seq![t] + rest0);
                    }
                    (items, end)
                },
                None => (Vec::new(), pos),
            }
        },
        None => (Vec::new(), pos),
    }
}

/// `Symbol name [matrix]` or `Symbol name, name, ...`: a symbol bound
/// straight to a matrix, or a list of literal symbols. The two paths are
/// mutually exclusive: a matrix after the first name takes the matrix
/// path, anything else the list path.
#[verifier::opaque]
pub open spec fn spec_symbol_decl(s: Seq<char>, pos: int) -> Option<(model::SymbolDecl, int)> {
    match spec_kw(s, pos, "Symbol"@) {
        Some(pk) => {
            let p0 = spec_skip(s, pk);
            if pk <= p0 <= s.len() {
                match spec_text_token(s, p0) {
                    Some((c0, neg0, p1)) => {
                        if p0 < p1 <= s.len() {
                            let t0 = model::TextToken {
                                content: c0,
                                negated: neg0,
                                span: model::Span { lo: p0, hi: p1 },
                            };
                            let p2 = spec_skip(s, p1);
                            if p1 <= p2 <= s.len() {
                                if spec_matrix(s, p2, false) is Some {
                                    let (m, p3) = spec_matrix(s, p2, false)->0;
                                    if p2 < p3 <= s.len() {
                                        Some(
                                            (
                                                model::SymbolDecl::WithMatrix {
                                                    name: t0,
                                                    matrix: m,
                                                    span: model::Span { lo: pos, hi: p3 },
                                                },
                                                p3,
                                            ),
                                        )
                                    } else {
                                        None
                                    }
                                } else {
                                    let (rest, p4) = spec_texts_rest(s, p1);
                                    if rest.len() == 0 {
                                        Some(
                                            (
                                                model::SymbolDecl::List {
                                                    names: seq![t0],
                                                    span: model::Span { lo: pos, hi: p1 },
                                                },
                                                p1,
                                            ),
                                        )
                                    } else {
                                        Some(
                                            (
                                                model::SymbolDecl::List {
                                                    names: seq![t0] + rest,
                                                    span: model::Span { lo: pos, hi: p4 },
                                                },
                                                p4,
                                            ),
                                        )
                                    }
                                }
                            } else {
                                None
                            }
                        } else {
                            None
                        }
                    },
                    None => None,
                }
            } else {
                None
            }
        },
        None => None,
    }
}

pub fn parse_symbol_decl(s: &[char], pos: usize, err: &mut ParseError) -> (r: Option<
    (ast::SymbolDecl, usize),
>)
    requires
        pos <= s@.len(),
    ensures
        match (r, spec_symbol_decl(s@, pos as int)) {
            (Some((d, end)), Some((md, mend))) => crate::model::symbol_decl_view(d) == md && end
                == mend && pos < end <= s@.len(),
            (None, None) => true,
            _ => false,
        },
{
    proof {
        reveal(spec_symbol_decl);
    }    match parse_kw(s, pos, "Symbol", err) {
        Some(pk) => {
            let p0 = skip(s, pk);
            match parse_text_token(s, p0, err) {
                Some(t0) => {
                    let p1 = t0.span.hi;
                    let p2 = skip(s, p1);
                    match parse_matrix(s, p2, false, err) {
                        Some((m, p3)) => Some(
                            (
                                ast::SymbolDecl::WithMatrix {
                                    name: t0,
                                    matrix: m,
                                    span: Span { lo: pos, hi: p3 },
                                },
                                p3,
                            ),
                        ),
                        None => {
                            let (rest, p4) = parse_texts_rest(s, p1, err);
                            proof {
                                lemma_texts_view_cons(t0, rest@);
                            }
                            if rest.len() == 0 {
                                let mut names: Vec<ast::TextToken> = Vec::new();
                                let ghost t0g = t0;
                                names.push(t0);
                                proof {
                                    assert(names@ =~= seq![t0g]);
                                }
                                Some(
                                    (
                                        ast::SymbolDecl::List {
                                            names,
                                            span: Span { lo: pos, hi: p1 },
                                        },
                                        p1,
                                    ),
                                )
                            } else {
                                let ghost rest0 = rest@;
                                let ghost t0g = t0;
                                let mut names = rest;
                                names.insert(0, t0);
                                proof {
                                    assert(names@ =~= seq![t0g] + rest0);
                                }
                                Some(
                                    (
                                        ast::SymbolDecl::List {
                                            names,
                                            span: Span { lo: pos, hi: p4 },
                                        },
                                        p4,
                                    ),
                                )
                            }
                        },
                    }
                },
                None => None,
            }
        },
        None => None,
    }
}

// ---------------------------------------------------------------------------
// Diacritic declarations.
// ---------------------------------------------------------------------------

/// One positional diacritic modifier: `(Before)`, `(First)` or
/// `(Floating)`, the keyword's first letter in either case.
pub open spec fn spec_dmod(s: Seq<char>, pos: int) -> Option<(model::DiacriticModifier, int)> {
    match spec_sym(s, pos, '(') {
        Some(p1) => {
            if spec_kw(s, p1, "Before)"@) is Some {
                let end = spec_kw(s, p1, "Before)"@)->0;
                Some((model::DiacriticModifier::Before { span: model::Span { lo: pos, hi: end } }, end))
            } else if spec_kw(s, p1, "First)"@) is Some {
                let end = spec_kw(s, p1, "First)"@)->0;
                Some((model::DiacriticModifier::First { span: model::Span { lo: pos, hi: end } }, end))
            } else if spec_kw(s, p1, "Floating)"@) is Some {
                let end = spec_kw(s, p1, "Floating)"@)->0;
                Some(
                    (model::DiacriticModifier::Floating { span: model::Span { lo: pos, hi: end } }, end),
                )
            } else {
                None
            }
        },
        None => None,
    }
}

fn parse_dmod(s: &[char], pos: usize, err: &mut ParseError) -> (r: Option<
    (ast::DiacriticModifier, usize),
>)
    requires
        pos <= s@.len(),
    ensures
        match (r, spec_dmod(s@, pos as int)) {
            (Some((m, end)), Some((mm, mend))) => dmod_view(m) == mm && end == mend && pos < end
                <= s@.len(),
            (None, None) => true,
            _ => false,
        },
{
    match parse_sym(s, pos, '(', err) {
        Some(p1) => {
            match parse_kw(s, p1, "Before)", err) {
                Some(end) => {
                    return Some(
                        (ast::DiacriticModifier::Before { span: Span { lo: pos, hi: end } }, end),
                    );
                },
                None => {},
            }
            match parse_kw(s, p1, "First)", err) {
                Some(end) => {
                    return Some(
                        (ast::DiacriticModifier::First { span: Span { lo: pos, hi: end } }, end),
                    );
                },
                None => {},
            }
            match parse_kw(s, p1, "Floating)", err) {
                Some(end) => {
                    return Some(
                        (ast::DiacriticModifier::Floating { span: Span { lo: pos, hi: end } }, end),
                    );
                },
                None => {},
            }
            None
        },
        None => None,
    }
}

/// A run of diacritic modifiers, separated by token separation; the
/// result position stands after the last modifier.
pub open spec fn spec_dmods(s: Seq<char>, pos: int) -> (Seq<model::DiacriticModifier>, int)
    decreases s.len() - pos,
{
    if !(0 <= pos <= s.len()) {
        (Seq::empty(), pos)
    } else {
        match spec_dmod(s, pos) {
            Some((m, p1)) => {
                if pos < p1 <= s.len() {
                    let q = spec_skip(s, p1);
                    if p1 <= q <= s.len() {
                        let (rest, end) = spec_dmods(s, q);
                        if rest.len() == 0 {
                            (seq![m], p1)
                        } else {
                            (seq![m] + rest, end)
                        }
                    } else {
                        (seq![m], p1)
                    }
                } else {
                    (Seq::empty(), pos)
                }
            },
            None => (Seq::empty(), pos),
        }
    }
}

fn parse_dmods(s: &[char], pos: usize, err: &mut ParseError) -> (r: (
    Vec<ast::DiacriticModifier>,
    usize,
))
    requires
        pos <= s@.len(),
    ensures
        (dmods_view(r.0@), r.1 as int) == spec_dmods(s@, pos as int),
        pos <= r.1 <= s@.len(),
    decreases s@.len() - pos,
{
    match parse_dmod(s, pos, err) {
        Some((m, p1)) => {
            let q = skip(s, p1);
            let (rest, end) = parse_dmods(s, q, err);
            proof {
                lemma_dmods_view_cons(m, rest@);
            }
            if rest.len() == 0 {
                let mut items: Vec<ast::DiacriticModifier> = Vec::new();
                let ghost mg = m;
                items.push(m);
                proof {
                    assert(items@ =~= seq![mg]);
                }
                (items, p1)
            } else {
                let ghost rest0 = rest@;
                let ghost mg = m;
                let mut items = rest;
                items.insert(0, m);
                proof {
                    assert(items@ =~= seq![mg] + rest0);
                }
                (items, end)
            }
        },
        None => (Vec::new(), pos),
    }
}

/// `Diacritic text (mods)* [matrix] (mods)*`: literal text mapped onto a
/// matrix, with positional modifiers before and after the matrix,
/// unordered and of unrestricted number.
#[verifier::opaque]
pub open spec fn spec_diacritic_decl(s: Seq<char>, pos: int) -> Option<
    (model::DiacriticDecl, int),
> {
    match spec_kw(s, pos, "Diacritic"@) {
        Some(pk) => {
            let p0 = spec_skip(s, pk);
            if pk <= p0 <= s.len() {
                match spec_text_token(s, p0) {
                    Some((c0, neg0, p1)) => {
                        if p0 < p1 <= s.len() {
                            let t = model::TextToken {
                                content: c0,
                                negated: neg0,
                                span: model::Span { lo: p0, hi: p1 },
                            };
                            let p2 = spec_skip(s, p1);
                            if p1 <= p2 <= s.len() {
                                let (pre, p3) = spec_dmods(s, p2);
                                let p4 = if pre.len() == 0 {
                                    p3
                                } else {
                                    spec_skip(s, p3)
                                };
                                if p2 <= p3 <= s.len() && p3 <= p4 <= s.len() {
                                    if spec_matrix(s, p4, false) is Some {
                                        let (m, p5) = spec_matrix(s, p4, false)->0;
                                        if p4 < p5 <= s.len() {
                                            let p6 = spec_skip(s, p5);
                                            if p5 <= p6 <= s.len() {
                                                let (post, p7) = spec_dmods(s, p6);
                                                let end = if post.len() == 0 {
                                                    p5
                                                } else {
                                                    p7
                                                };
                                                if p5 <= end <= s.len() {
                                                    Some(
                                                        (
                                                            model::DiacriticDecl {
                                                                text: t,
                                                                pre_modifiers: pre,
                                                                matrix: m,
                                                                post_modifiers: post,
                                                                span: model::Span {
                                                                    lo: pos,
                                                                    hi: end,
                                                                },
                                                            },
                                                            end,
                                                        ),
                                                    )
                                                } else {
                                                    None
                                                }
                                            } else {
                                                None
                                            }
                                        } else {
                                            None
                                        }
                                    } else {
                                        None
                                    }
                                } else {
                                    None
                                }
                            } else {
                                None
                            }
                        } else {
                            None
                        }
                    },
                    None => None,
                }
            } else {
                None
            }
        },
        None => None,
    }
}

pub fn parse_diacritic_decl(s: &[char], pos: usize, err: &mut ParseError) -> (r: Option<
    (ast::DiacriticDecl, usize),
>)
    requires
        pos <= s@.len(),
    ensures
        match (r, spec_diacritic_decl(s@, pos as int)) {
            (Some((d, end)), Some((md, mend))) => diacritic_decl_view(d) == md && end == mend
                && pos < end <= s@.len(),
            (None, None) => true,
            _ => false,
        },
{
    proof {
        reveal(spec_diacritic_decl);
    }    match parse_kw(s, pos, "Diacritic", err) {
        Some(pk) => {
            let p0 = skip(s, pk);
            match parse_text_token(s, p0, err) {
                Some(t) => {
                    let p1 = t.span.hi;
                    let p2 = skip(s, p1);
                    let (pre, p3) = parse_dmods(s, p2, err);
                    let p4 = if pre.len() == 0 {
                        p3
                    } else {
                        skip(s, p3)
                    };
                    match parse_matrix(s, p4, false, err) {
                        Some((m, p5)) => {
                            let p6 = skip(s, p5);
                            let (post, p7) = parse_dmods(s, p6, err);
                            let end = if post.len() == 0 {
                                p5
                            } else {
                                p7
                            };
                            Some(
                                (
                                    ast::DiacriticDecl {
                                        text: t,
                                        pre_modifiers: pre,
                                        matrix: m,
                                        post_modifiers: post,
                                        span: Span { lo: pos, hi: end },
                                    },
                                    end,
                                ),
                            )
                        },
                        None => None,
                    }
                },
                None => None,
            }
        },
        None => None,
    }
}

// ---------------------------------------------------------------------------
// Standard expressions.
// ---------------------------------------------------------------------------

/// `from => to env?`: a sound-change expression. The change arrow binds a
/// rule element (with its own optional environment) to an unconditional
/// element, with an optional compound environment after it.
#[verifier::opaque]
pub open spec fn spec_std_expr(s: Seq<char>, pos: int) -> Option<
    (model::StandardExpression, int),
> {
    match spec_rule_element(s, pos) {
        Some((from, p1)) => {
            if pos < p1 <= s.len() {
                let p2 = spec_skip(s, p1);
                if p1 <= p2 <= s.len() {
                    match spec_sym(s, p2, '=') {
                        Some(q) => {
                            match spec_sym(s, q, '>') {
                                Some(p3) => {
                                    let p4 = spec_skip(s, p3);
                                    if p3 <= p4 <= s.len() {
                                        match spec_uncond(s, p4) {
                                            Some((to, p5)) => {
                                                if p4 < p5 <= s.len() {
                                                    let p6 = spec_skip(s, p5);
                                                    if p5 <= p6 <= s.len() {
                                                        let (env, end) = match spec_compound_env(
                                                            s,
                                                            p6,
                                                        ) {
                                                            Some((e, p7)) => {
                                                                if p6 < p7 <= s.len() {
                                                                    (Some(e), p7)
                                                                } else {
                                                                    (None, p5)
                                                                }
                                                            },
                                                            None => (None, p5),
                                                        };
                                                        Some(
                                                            (
                                                                model::StandardExpression {
                                                                    from: from,
                                                                    to: to,
                                                                    environment: env,
                                                                    span: model::Span {
                                                                        lo: pos,
                                                                        hi: end,
                                                                    },
                                                                },
                                                                end,
                                                            ),
                                                        )
                                                    } else {
                                                        None
                                                    }
                                                } else {
                                                    None
                                                }
                                            },
                                            None => None,
                                        }
                                    } else {
                                        None
                                    }
                                },
                                None => None,
                            }
                        },
                        None => None,
                    }
                } else {
                    None
                }
            } else {
                None
            }
        },
        None => None,
    }
}

pub fn parse_standard_expression(s: &[char], pos: usize, err: &mut ParseError) -> (r: Option<
    (ast::StandardExpression, usize),
>)
    requires
        pos <= s@.len(),
    ensures
        match (r, spec_std_expr(s@, pos as int)) {
            (Some((e, end)), Some((me, mend))) => crate::model::stdexpr_view(e) == me && end
                == mend && pos < end <= s@.len(),
            (None, None) => true,
            _ => false,
        },
{
    proof {
        reveal(spec_std_expr);
    }    match parse_rule_element(s, pos, err) {
        Some((from, p1)) => {
            let p2 = skip(s, p1);
            match parse_sym(s, p2, '=', err) {
                Some(q) => {
                    match parse_sym(s, q, '>', err) {
                        Some(p3) => {
                            let p4 = skip(s, p3);
                            match parse_uncond(s, p4, err) {
                                Some((to, p5)) => {
                                    let p6 = skip(s, p5);
                                    let (env, end) = match parse_compound_env(s, p6, err) {
                                        Some((e, p7)) => (Some(e), p7),
                                        None => (None, p5),
                                    };
                                    Some(
                                        (
                                            ast::StandardExpression {
                                                from,
                                                to,
                                                environment: env,
                                                span: Span { lo: pos, hi: end },
                                            },
                                            end,
                                        ),
                                    )
                                },
                                None => None,
                            }
                        },
                        None => None,
                    }
                },
                None => None,
            }
        },
        None => None,
    }
}

// ---------------------------------------------------------------------------
// Syllable declarations.
// ---------------------------------------------------------------------------

/// The optional reluctant-onset prefix of a structured pattern: an
/// unconditional element behind `?:`; absent, the position is unmoved.
pub open spec fn spec_reluctant(s: Seq<char>, pos: int) -> (Option<model::RuleElement>, int) {
    match spec_uncond(s, pos) {
        Some((a, q1)) => {
            if pos < q1 <= s.len() {
                let q2 = spec_skip(s, q1);
                if q1 <= q2 <= s.len() {
                    match spec_sym(s, q2, '?') {
                        Some(q3) => {
                            match spec_sym(s, q3, ':') {
                                Some(q4) => {
                                    let q5 = spec_skip(s, q4);
                                    if q4 <= q5 <= s.len() {
                                        (Some(a), q5)
                                    } else {
                                        (None, pos)
                                    }
                                },
                                None => (None, pos),
                            }
                        },
                        None => (None, pos),
                    }
                } else {
                    (None, pos)
                }
            } else {
                (None, pos)
            }
        },
        None => (None, pos),
    }
}

fn parse_reluctant(s: &[char], pos: usize, err: &mut ParseError) -> (r: (
    Option<ast::RuleElement>,
    usize,
))
    requires
        pos <= s@.len(),
    ensures
        (crate::model::opt_elem_view(r.0), r.1 as int) == spec_reluctant(s@, pos as int),
        pos <= r.1 <= s@.len(),
{
    match parse_uncond(s, pos, err) {
        Some((a, q1)) => {
            let q2 = skip(s, q1);
            match parse_sym(s, q2, '?', err) {
                Some(q3) => {
                    match parse_sym(s, q3, ':', err) {
                        Some(q4) => (Some(a), skip(s, q4)),
                        None => (None, pos),
                    }
                },
                None => (None, pos),
            }
        },
        None => (None, pos),
    }
}

/// The optional third `::` part of a structured pattern.
pub open spec fn spec_third_part(s: Seq<char>, pos: int) -> Option<(model::RuleElement, int)> {
    match spec_sym(s, pos, ':') {
        Some(r3) => {
            match spec_sym(s, r3, ':') {
                Some(r4) => {
                    let p4 = spec_skip(s, r4);
                    if r4 <= p4 <= s.len() {
                        match spec_uncond(s, p4) {
                            Some((e3, p5)) => {
                                if p4 < p5 <= s.len() {
                                    Some((e3, p5))
                                } else {
                                    None
                                }
                            },
                            None => None,
                        }
                    } else {
                        None
                    }
                },
                None => None,
            }
        },
        None => None,
    }
}

fn parse_third_part(s: &[char], pos: usize, err: &mut ParseError) -> (r: Option<
    (ast::RuleElement, usize),
>)
    requires
        pos <= s@.len(),
    ensures
        elem_res_view(r) == spec_third_part(s@, pos as int),
        r matches Some((_, end)) ==> pos < end <= s@.len(),
{
    match parse_sym(s, pos, ':', err) {
        Some(r3) => {
            match parse_sym(s, r3, ':', err) {
                Some(r4) => {
                    let p4 = skip(s, r4);
                    parse_uncond(s, p4, err)
                },
                None => None,
            }
        },
        None => None,
    }
}

/// The tail of a structured pattern after its first element and `::`:
/// the second element and an optional third.
pub open spec fn spec_structured_tail(
    s: Seq<char>,
    p2: int,
    lo: int,
    onset: Option<model::RuleElement>,
    e1: model::RuleElement,
) -> Option<(model::SyllablePattern, int)> {
    match spec_uncond(s, p2) {
        Some((e2, p3)) => {
            if p2 < p3 <= s.len() {
                let q2 = spec_skip(s, p3);
                if p3 <= q2 <= s.len() {
                    match spec_third_part(s, q2) {
                        Some((e3, p5)) => Some(
                            (
                                model::SyllablePattern::Structured {
                                    reluctant_onset: onset,
                                    parts: seq![e1, e2, e3],
                                    span: model::Span { lo: lo, hi: p5 },
                                },
                                p5,
                            ),
                        ),
                        None => Some(
                            (
                                model::SyllablePattern::Structured {
                                    reluctant_onset: onset,
                                    parts: seq![e1, e2],
                                    span: model::Span { lo: lo, hi: p3 },
                                },
                                p3,
                            ),
                        ),
                    }
                } else {
                    None
                }
            } else {
                None
            }
        },
        None => None,
    }
}

#[verifier::rlimit(100)]
#[verifier::spinoff_prover]
fn parse_structured_tail(
    s: &[char],
    p2: usize,
    lo: usize,
    onset: Option<ast::RuleElement>,
    e1: ast::RuleElement,
    err: &mut ParseError,
) -> (r: Option<(ast::SyllablePattern, usize)>)
    requires
        p2 <= s@.len(),
        lo <= p2,
    ensures
        match (r,
            spec_structured_tail(
                s@,
                p2 as int,
                lo as int,
                crate::model::opt_elem_view(onset),
                elem_view(e1),
            ),
        ) {
            (Some((p, end)), Some((mp, mend))) => syl_pattern_view(p) == mp && end == mend && p2
                < end <= s@.len(),
            (None, None) => true,
            _ => false,
        },
{
    match parse_uncond(s, p2, err) {
        Some((e2, p3)) => {
            let q2 = skip(s, p3);
            let third = parse_third_part(s, q2, err);
            match third {
                Some((e3, p5)) => {
                    let mut parts: Vec<ast::RuleElement> = Vec::new();
                    let ghost g1 = e1;
                    let ghost g2 = e2;
                    let ghost g3 = e3;
                    parts.push(e1);
                    parts.push(e2);
                    parts.push(e3);
                    proof {
                        assert(parts@ =~= seq![g1, g2, g3]);
                        lemma_elems_view_cons(g1, seq![g2, g3]);
                        lemma_elems_view_cons(g2, seq![g3]);
                        lemma_elems_view_cons(g3, Seq::<ast::RuleElement>::empty());
                        assert(seq![g1] + seq![g2, g3] =~= seq![g1, g2, g3]);
                        assert(seq![g2] + seq![g3] =~= seq![g2, g3]);
                        assert(elems_view(seq![g1, g2, g3]) =~= seq![
                            elem_view(g1),
                            elem_view(g2),
                            elem_view(g3),
                        ]);
                    }
                    Some(
                        (
                            ast::SyllablePattern::Structured {
                                reluctant_onset: onset,
                                parts,
                                span: Span { lo: lo, hi: p5 },
                            },
                            p5,
                        ),
                    )
                },
                None => {
                    let mut parts: Vec<ast::RuleElement> = Vec::new();
                    let ghost g1 = e1;
                    let ghost g2 = e2;
                    parts.push(e1);
                    parts.push(e2);
                    proof {
                        assert(parts@ =~= seq![g1, g2]);
                        lemma_elems_view_cons(g1, seq![g2]);
                        lemma_elems_view_cons(g2, Seq::<ast::RuleElement>::empty());
                        assert(seq![g1] + seq![g2] =~= seq![g1, g2]);
                        assert(elems_view(seq![g1, g2]) =~= seq![elem_view(g1), elem_view(g2)]);
                    }
                    Some(
                        (
                            ast::SyllablePattern::Structured {
                                reluctant_onset: onset,
                                parts,
                                span: Span { lo: lo, hi: p3 },
                            },
                            p3,
                        ),
                    )
                },
            }
        },
        None => None,
    }
}

/// A structured syllable pattern: an optional reluctant onset behind
/// `?:`, then two or three `::`-separated unconditional elements.
#[verifier::opaque]
pub open spec fn spec_structured(s: Seq<char>, pos: int) -> Option<(model::SyllablePattern, int)> {
    let (onset, p0) = spec_reluctant(s, pos);
    if 0 <= p0 <= s.len() {
        match spec_uncond(s, p0) {
            Some((e1, p1)) => {
                if p0 < p1 <= s.len() {
                    let q = spec_skip(s, p1);
                    if p1 <= q <= s.len() {
                        match spec_sym(s, q, ':') {
                            Some(r1) => {
                                match spec_sym(s, r1, ':') {
                                    Some(r2) => {
                                        let p2 = spec_skip(s, r2);
                                        if r2 <= p2 <= s.len() {
                                            spec_structured_tail(s, p2, pos, onset, e1)
                                        } else {
                                            None
                                        }
                                    },
                                    None => None,
                                }
                            },
                            None => None,
                        }
                    } else {
                        None
                    }
                } else {
                    None
                }
            },
            None => None,
        }
    } else {
        None
    }
}

#[verifier::rlimit(100)]
#[verifier::spinoff_prover]
fn parse_structured(s: &[char], pos: usize, err: &mut ParseError) -> (r: Option<
    (ast::SyllablePattern, usize),
>)
    requires
        pos <= s@.len(),
    ensures
        match (r, spec_structured(s@, pos as int)) {
            (Some((p, end)), Some((mp, mend))) => syl_pattern_view(p) == mp && end == mend && pos
                < end <= s@.len(),
            (None, None) => true,
            _ => false,
        },
{
    proof {
        reveal(spec_structured);
    }
    let (onset, p0) = parse_reluctant(s, pos, err);
    match parse_uncond(s, p0, err) {
        Some((e1, p1)) => {
            let q = skip(s, p1);
            match parse_sym(s, q, ':', err) {
                Some(r1) => {
                    match parse_sym(s, r1, ':', err) {
                        Some(r2) => {
                            let p2 = skip(s, r2);
                            parse_structured_tail(s, p2, pos, onset, e1, err)
                        },
                        None => None,
                    }
                },
                None => None,
            }
        },
        None => None,
    }
}

/// A syllable pattern: a structured pattern, or a plain rule element.
pub open spec fn spec_syl_pattern(s: Seq<char>, pos: int) -> Option<(model::SyllablePattern, int)> {
    if spec_structured(s, pos) is Some {
        spec_structured(s, pos)
    } else {
        match spec_rule_element(s, pos) {
            Some((e, p)) => {
                if pos < p <= s.len() {
                    Some((model::SyllablePattern::Plain(e), p))
                } else {
                    None
                }
            },
            None => None,
        }
    }
}

fn parse_syl_pattern(s: &[char], pos: usize, err: &mut ParseError) -> (r: Option<
    (ast::SyllablePattern, usize),
>)
    requires
        pos <= s@.len(),
    ensures
        match (r, spec_syl_pattern(s@, pos as int)) {
            (Some((p, end)), Some((mp, mend))) => syl_pattern_view(p) == mp && end == mend && pos
                < end <= s@.len(),
            (None, None) => true,
            _ => false,
        },
{
    match parse_structured(s, pos, err) {
        Some(r) => Some(r),
        None => {
            match parse_rule_element(s, pos, err) {
                Some((e, p)) => Some((ast::SyllablePattern::Plain(e), p)),
                None => None,
            }
        },
    }
}

/// One syllable expression: a pattern, an optional `=>` result matrix,
/// and an optional compound environment.
#[verifier::opaque]
pub open spec fn spec_syl_expr(s: Seq<char>, pos: int) -> Option<(model::SyllableExpression, int)> {
    match spec_syl_pattern(s, pos) {
        Some((pt, p1)) => {
            if pos < p1 <= s.len() {
                let q = spec_skip(s, p1);
                if p1 <= q <= s.len() {
                    let (mtx, p2) = match spec_sym(s, q, '=') {
                        Some(a) => {
                            match spec_sym(s, a, '>') {
                                Some(b) => {
                                    let c = spec_skip(s, b);
                                    if b <= c <= s.len() {
                                        match spec_matrix(s, c, false) {
                                            Some((m, d)) => {
                                                if c < d <= s.len() {
                                                    (Some(m), d)
                                                } else {
                                                    (None, p1)
                                                }
                                            },
                                            None => (None, p1),
                                        }
                                    } else {
                                        (None, p1)
                                    }
                                },
                                None => (None, p1),
                            }
                        },
                        None => (None, p1),
                    };
                    if p1 <= p2 <= s.len() {
                        let q2 = spec_skip(s, p2);
                        if p2 <= q2 <= s.len() {
                            let (env, end) = match spec_compound_env(s, q2) {
                                Some((e, p3)) => {
                                    if q2 < p3 <= s.len() {
                                        (Some(e), p3)
                                    } else {
                                        (None, p2)
                                    }
                                },
                                None => (None, p2),
                            };
                            Some(
                                (
                                    model::SyllableExpression {
                                        pattern: pt,
                                        matrix: mtx,
                                        environment: env,
                                        span: model::Span { lo: pos, hi: end },
                                    },
                                    end,
                                ),
                            )
                        } else {
                            None
                        }
                    } else {
                        None
                    }
                } else {
                    None
                }
            } else {
                None
            }
        },
        None => None,
    }
}

#[verifier::rlimit(100)]
#[verifier::spinoff_prover]
fn parse_syl_expr(s: &[char], pos: usize, err: &mut ParseError) -> (r: Option<
    (ast::SyllableExpression, usize),
>)
    requires
        pos <= s@.len(),
    ensures
        match (r, spec_syl_expr(s@, pos as int)) {
            (Some((e, end)), Some((me, mend))) => syl_expr_view(e) == me && end == mend && pos
                < end <= s@.len(),
            (None, None) => true,
            _ => false,
        },
{
    proof {
        reveal(spec_syl_expr);
    }
    match parse_syl_pattern(s, pos, err) {
        Some((pt, p1)) => {
            let q = skip(s, p1);
            let (mtx, p2) = match parse_sym(s, q, '=', err) {
                Some(a) => {
                    match parse_sym(s, a, '>', err) {
                        Some(b) => {
                            let c = skip(s, b);
                            match parse_matrix(s, c, false, err) {
                                Some((m, d)) => (Some(m), d),
                                None => (None, p1),
                            }
                        },
                        None => (None, p1),
                    }
                },
                None => (None, p1),
            };
            let q2 = skip(s, p2);
            let (env, end) = match parse_compound_env(s, q2, err) {
                Some((e, p3)) => (Some(e), p3),
                None => (None, p2),
            };
            Some(
                (
                    ast::SyllableExpression {
                        pattern: pt,
                        matrix: mtx,
                        environment: env,
                        span: Span { lo: pos, hi: end },
                    },
                    end,
                ),
            )
        },
        None => None,
    }
}

/// Further syllable expressions, each after token separation; the result
/// position stands after the last expression.
pub open spec fn spec_syl_exprs_rest(s: Seq<char>, pos: int) -> (
    Seq<model::SyllableExpression>,
    int,
)
    decreases s.len() - pos,
{
    if !(0 <= pos <= s.len()) {
        (Seq::empty(), pos)
    } else {
        let q = spec_skip(s, pos);
        if pos <= q <= s.len() {
            match spec_syl_expr(s, q) {
                Some((x, p1)) => {
                    if q < p1 <= s.len() && pos < p1 {
                        let (rest, end) = spec_syl_exprs_rest(s, p1);
                        if rest.len() == 0 {
                            (seq![x], p1)
                        } else {
                            (seq![x] + rest, end)
                        }
                    } else {
                        (Seq::empty(), pos)
                    }
                },
                None => (Seq::empty(), pos),
            }
        } else {
            (Seq::empty(), pos)
        }
    }
}

#[verifier::rlimit(100)]
#[verifier::spinoff_prover]
fn parse_syl_exprs_rest(s: &[char], pos: usize, err: &mut ParseError) -> (r: (
    Vec<ast::SyllableExpression>,
    usize,
))
    requires
        pos <= s@.len(),
    ensures
        (syl_exprs_view(r.0@), r.1 as int) == spec_syl_exprs_rest(s@, pos as int),
        pos <= r.1 <= s@.len(),
    decreases s@.len() - pos,
{
    let q = skip(s, pos);
    match parse_syl_expr(s, q, err) {
        Some((x, p1)) => {
            let (rest, end) = parse_syl_exprs_rest(s, p1, err);
            proof {
                lemma_syl_exprs_view_cons(x, rest@);
            }
            if rest.len() == 0 {
                let mut items: Vec<ast::SyllableExpression> = Vec::new();
                let ghost xg = x;
                items.push(x);
                proof {
                    assert(items@ =~= seq![xg]);
                }
                (items, p1)
            } else {
                let ghost rest0 = rest@;
                let ghost xg = x;
                let mut items = rest;
                items.insert(0, x);
                proof {
                    assert(items@ =~= seq![xg] + rest0);
                }
                (items, end)
            }
        },
        None => (Vec::new(), pos),
    }
}

/// One or more syllable expressions, as the body of a syllable
/// declaration whose keyword began at `lo`.
pub open spec fn spec_syl_patterns(s: Seq<char>, pos: int, lo: int) -> Option<
    (model::SyllableDecl, int),
> {
    match spec_syl_expr(s, pos) {
        Some((x0, p3)) => {
            if pos < p3 <= s.len() {
                let (rest, p4) = spec_syl_exprs_rest(s, p3);
                if rest.len() == 0 {
                    Some(
                        (
                            model::SyllableDecl::Patterns {
                                exprs: seq![x0],
                                span: model::Span { lo: lo, hi: p3 },
                            },
                            p3,
                        ),
                    )
                } else {
                    Some(
                        (
                            model::SyllableDecl::Patterns {
                                exprs: seq![x0] + rest,
                                span: model::Span { lo: lo, hi: p4 },
                            },
                            p4,
                        ),
                    )
                }
            } else {
                None
            }
        },
        None => None,
    }
}

fn parse_syl_patterns(s: &[char], pos: usize, lo: usize, err: &mut ParseError) -> (r: Option<
    (ast::SyllableDecl, usize),
>)
    requires
        pos <= s@.len(),
    ensures
        match (r, spec_syl_patterns(s@, pos as int, lo as int)) {
            (Some((d, end)), Some((md, mend))) => crate::model::syllable_decl_view(d) == md && end
                == mend && pos < end <= s@.len(),
            (None, None) => true,
            _ => false,
        },
{
    match parse_syl_expr(s, pos, err) {
        Some((x0, p3)) => {
            let (rest, p4) = parse_syl_exprs_rest(s, p3, err);
            proof {
                lemma_syl_exprs_view_cons(x0, rest@);
            }
            if rest.len() == 0 {
                let mut exprs: Vec<ast::SyllableExpression> = Vec::new();
                let ghost xg = x0;
                exprs.push(x0);
                proof {
                    assert(exprs@ =~= seq![xg]);
                }
                Some((ast::SyllableDecl::Patterns { exprs, span: Span { lo: lo, hi: p3 } }, p3))
            } else {
                let ghost rest0 = rest@;
                let ghost xg = x0;
                let mut exprs = rest;
                exprs.insert(0, x0);
                proof {
                    assert(exprs@ =~= seq![xg] + rest0);
                }
                Some((ast::SyllableDecl::Patterns { exprs, span: Span { lo: lo, hi: p4 } }, p4))
            }
        },
        None => None,
    }
}

/// `Syllable: ...`: the `Explicit` or `Clear` directive, or one or more
/// syllable expressions.
#[verifier::opaque]
pub open spec fn spec_syllable_decl(s: Seq<char>, pos: int) -> Option<(model::SyllableDecl, int)> {
    match spec_kw(s, pos, "Syllable"@) {
        Some(pk) => {
            let p0 = spec_skip(s, pk);
            if pk <= p0 <= s.len() {
                match spec_sym(s, p0, ':') {
                    Some(p1) => {
                        let p2 = spec_skip(s, p1);
                        if p1 <= p2 <= s.len() {
                            if spec_kw(s, p2, "Explicit"@) is Some {
                                let end = spec_kw(s, p2, "Explicit"@)->0;
                                Some(
                                    (
                                        model::SyllableDecl::Explicit {
                                            span: model::Span { lo: pos, hi: end },
                                        },
                                        end,
                                    ),
                                )
                            } else if spec_kw(s, p2, "Clear"@) is Some {
                                let end = spec_kw(s, p2, "Clear"@)->0;
                                Some(
                                    (
                                        model::SyllableDecl::Clear {
                                            span: model::Span { lo: pos, hi: end },
                                        },
                                        end,
                                    ),
                                )
                            } else {
                                spec_syl_patterns(s, p2, pos)
                            }
                        } else {
                            None
                        }
                    },
                    None => None,
                }
            } else {
                None
            }
        },
        None => None,
    }
}

#[verifier::rlimit(100)]
#[verifier::spinoff_prover]
pub fn parse_syllable_decl(s: &[char], pos: usize, err: &mut ParseError) -> (r: Option<
    (ast::SyllableDecl, usize),
>)
    requires
        pos <= s@.len(),
    ensures
        match (r, spec_syllable_decl(s@, pos as int)) {
            (Some((d, end)), Some((md, mend))) => crate::model::syllable_decl_view(d) == md && end
                == mend && pos < end <= s@.len(),
            (None, None) => true,
            _ => false,
        },
{
    proof {
        reveal(spec_syllable_decl);
    }    match parse_kw(s, pos, "Syllable", err) {
        Some(pk) => {
            let p0 = skip(s, pk);
            match parse_sym(s, p0, ':', err) {
                Some(p1) => {
                    let p2 = skip(s, p1);
                    match parse_kw(s, p2, "Explicit", err) {
                        Some(end) => {
                            return Some(
                                (
                                    ast::SyllableDecl::Explicit { span: Span { lo: pos, hi: end } },
                                    end,
                                ),
                            );
                        },
                        None => {},
                    }
                    match parse_kw(s, p2, "Clear", err) {
                        Some(end) => {
                            return Some(
                                (ast::SyllableDecl::Clear { span: Span { lo: pos, hi: end } }, end),
                            );
                        },
                        None => {},
                    }
                    parse_syl_patterns(s, p2, pos, err)
                },
                None => None,
            }
        },
        None => None,
    }
}

// ---------------------------------------------------------------------------
// Rule names and rule modifiers.
// ---------------------------------------------------------------------------

pub proof fn lemma_segments_view_cons(n: Vec<char>, rest: Seq<Vec<char>>)
    ensures
        segments_view(seq![n] + rest) == seq![n@] + segments_view(rest),
{
    let full = seq![n] + rest;
    assert(full.len() == 1 + rest.len());
    assert(full[0] == n);
    assert(full.subrange(1, full.len() as int) =~= rest);
    assert(segments_view(full) == seq![full[0]@] + segments_view(
        full.subrange(1, full.len() as int),
    ));
}

pub proof fn lemma_modifiers_view_cons(m: ast::RuleModifier, rest: Seq<ast::RuleModifier>)
    ensures
        modifiers_view(seq![m] + rest) == seq![modifier_view(m)] + modifiers_view(rest),
{
    let full = seq![m] + rest;
    assert(full.len() == 1 + rest.len());
    assert(full[0] == m);
    assert(full.subrange(1, full.len() as int) =~= rest);
    assert(modifiers_view(full) == seq![modifier_view(full[0])] + modifiers_view(
        full.subrange(1, full.len() as int),
    ));
}

pub proof fn lemma_exprs_view_cons(e: ast::Expression, rest: Seq<ast::Expression>)
    ensures
        exprs_view(seq![e] + rest) == seq![expr_view(e)] + exprs_view(rest),
{
    let full = seq![e] + rest;
    assert(full.len() == 1 + rest.len());
    assert(full[0] == e);
    assert(full.subrange(1, full.len() as int) =~= rest);
    assert(exprs_view(full) == seq![expr_view(full[0])] + exprs_view(
        full.subrange(1, full.len() as int),
    ));
}

pub proof fn lemma_branches_view_cons(b: ast::BlockBranch, rest: Seq<ast::BlockBranch>)
    ensures
        branches_view(seq![b] + rest) == seq![branch_view(b)] + branches_view(rest),
{
    let full = seq![b] + rest;
    assert(full.len() == 1 + rest.len());
    assert(full[0] == b);
    assert(full.subrange(1, full.len() as int) =~= rest);
    assert(branches_view(full) == seq![branch_view(full[0])] + branches_view(
        full.subrange(1, full.len() as int),
    ));
}

pub proof fn lemma_stmts_view_cons(st: ast::Statement, rest: Seq<ast::Statement>)
    ensures
        stmts_view(seq![st] + rest) == seq![stmt_view(st)] + stmts_view(rest),
{
    let full = seq![st] + rest;
    assert(full.len() == 1 + rest.len());
    assert(full[0] == st);
    assert(full.subrange(1, full.len() as int) =~= rest);
    assert(stmts_view(full) == seq![stmt_view(full[0])] + stmts_view(
        full.subrange(1, full.len() as int),
    ));
}

pub proof fn lemma_stmts_view_concat(a: Seq<ast::Statement>, b: Seq<ast::Statement>)
    ensures
        stmts_view(a + b) == stmts_view(a) + stmts_view(b),
    decreases a.len(),
{
    if a.len() == 0 {
        assert(a + b =~= b);
        assert(stmts_view(a) =~= Seq::<model::Statement>::empty());
        assert(stmts_view(a) + stmts_view(b) =~= stmts_view(b));
    } else {
        let t = a.subrange(1, a.len() as int);
        lemma_stmts_view_concat(t, b);
        assert((a + b).len() == a.len() + b.len());
        assert((a + b)[0] == a[0]);
        assert((a + b).subrange(1, (a + b).len() as int) =~= t + b);
        assert(stmts_view(a + b) == seq![stmt_view((a + b)[0])] + stmts_view(
            (a + b).subrange(1, (a + b).len() as int),
        ));
        assert(stmts_view(a) == seq![stmt_view(a[0])] + stmts_view(t));
        assert(seq![stmt_view(a[0])] + (stmts_view(t) + stmts_view(b)) =~= (seq![
            stmt_view(a[0]),
        ] + stmts_view(t)) + stmts_view(b));
    }
}

/// Further hyphen-joined segments of a rule name.
pub open spec fn spec_segs_rest(s: Seq<char>, pos: int) -> (Seq<Seq<char>>, int)
    decreases s.len() - pos,
{
    if !(0 <= pos <= s.len()) {
        (Seq::empty(), pos)
    } else {
        match spec_sym(s, pos, '-') {
            Some(p1) => {
                match spec_name(s, p1) {
                    Some((n, p2)) => {
                        if p1 < p2 <= s.len() && pos < p2 {
                            let (rest, end) = spec_segs_rest(s, p2);
                            (seq![n] + rest, end)
                        } else {
                            (Seq::empty(), pos)
                        }
                    },
                    None => (Seq::empty(), pos),
                }
            },
            None => (Seq::empty(), pos),
        }
    }
}

fn parse_segs_rest(s: &[char], pos: usize, err: &mut ParseError) -> (r: (Vec<Vec<char>>, usize))
    requires
        pos <= s@.len(),
    ensures
        (segments_view(r.0@), r.1 as int) == spec_segs_rest(s@, pos as int),
        pos <= r.1 <= s@.len(),
    decreases s@.len() - pos,
{
    match parse_sym(s, pos, '-', err) {
        Some(p1) => {
            match parse_name(s, p1, err) {
                Some((n, p2)) => {
                    let (rest, end) = parse_segs_rest(s, p2, err);
                    proof {
                        lemma_segments_view_cons(n, rest@);
                    }
                    let ghost rest0 = rest@;
                    let ghost ng = n;
                    let mut items = rest;
                    items.insert(0, n);
                    proof {
                        assert(items@ =~= seq![ng] + rest0);
                    }
                    (items, end)
                },
                None => (Vec::new(), pos),
            }
        },
        None => (Vec::new(), pos),
    }
}

/// A rule name: name segments joined by `-`, without separation.
pub open spec fn spec_rulename(s: Seq<char>, pos: int) -> Option<(model::RuleName, int)> {
    match spec_name(s, pos) {
        Some((n0, p1)) => {
            if pos < p1 <= s.len() {
                let (rest, p2) = spec_segs_rest(s, p1);
                if rest.len() == 0 {
                    Some(
                        (
                            model::RuleName {
                                segments: seq![n0],
                                span: model::Span { lo: pos, hi: p1 },
                            },
                            p1,
                        ),
                    )
                } else {
                    Some(
                        (
                            model::RuleName {
                                segments: seq![n0] + rest,
                                span: model::Span { lo: pos, hi: p2 },
                            },
                            p2,
                        ),
                    )
                }
            } else {
                None
            }
        },
        None => None,
    }
}

fn parse_rulename(s: &[char], pos: usize, err: &mut ParseError) -> (r: Option<
    (ast::RuleName, usize),
>)
    requires
        pos <= s@.len(),
    ensures
        match (r, spec_rulename(s@, pos as int)) {
            (Some((n, end)), Some((mn, mend))) => rulename_view(n) == mn && end == mend && pos
                < end <= s@.len(),
            (None, None) => true,
            _ => false,
        },
{
    match parse_name(s, pos, err) {
        Some((n0, p1)) => {
            let (rest, p2) = parse_segs_rest(s, p1, err);
            proof {
                lemma_segments_view_cons(n0, rest@);
            }
            if rest.len() == 0 {
                let mut segments: Vec<Vec<char>> = Vec::new();
                let ghost ng = n0;
                segments.push(n0);
                proof {
                    assert(segments@ =~= seq![ng]);
                }
                Some((ast::RuleName { segments, span: Span { lo: pos, hi: p1 } }, p1))
            } else {
                let ghost rest0 = rest@;
                let ghost ng = n0;
                let mut segments = rest;
                segments.insert(0, n0);
                proof {
                    assert(segments@ =~= seq![ng] + rest0);
                }
                Some((ast::RuleName { segments, span: Span { lo: pos, hi: p2 } }, p2))
            }
        },
        None => None,
    }
}

/// One rule modifier: an `@name` element filter, a fancy matrix filter,
/// one of the direction or scheduling keywords, or any plain name.
pub open spec fn spec_rule_modifier(s: Seq<char>, pos: int) -> Option<(model::RuleModifier, int)> {
    if spec_sym(s, pos, '@') is Some && spec_name(s, pos + 1) is Some {
        let (n, end) = spec_name(s, pos + 1)->0;
        Some(
            (model::RuleModifier::FilterRef { name: n, span: model::Span { lo: pos, hi: end } }, end),
        )
    } else if spec_matrix(s, pos, true) is Some {
        let (m, end) = spec_matrix(s, pos, true)->0;
        Some(
            (
                model::RuleModifier::FilterMatrix {
                    matrix: m,
                    span: model::Span { lo: pos, hi: end },
                },
                end,
            ),
        )
    } else if spec_kw(s, pos, "Ltr"@) is Some {
        let end = spec_kw(s, pos, "Ltr"@)->0;
        Some((model::RuleModifier::Ltr { span: model::Span { lo: pos, hi: end } }, end))
    } else if spec_kw(s, pos, "Rtl"@) is Some {
        let end = spec_kw(s, pos, "Rtl"@)->0;
        Some((model::RuleModifier::Rtl { span: model::Span { lo: pos, hi: end } }, end))
    } else if spec_kw(s, pos, "Propagate"@) is Some {
        let end = spec_kw(s, pos, "Propagate"@)->0;
        Some((model::RuleModifier::Propagate { span: model::Span { lo: pos, hi: end } }, end))
    } else if spec_kw(s, pos, "Defer"@) is Some {
        let end = spec_kw(s, pos, "Defer"@)->0;
        Some((model::RuleModifier::Defer { span: model::Span { lo: pos, hi: end } }, end))
    } else if spec_kw(s, pos, "Cleanup"@) is Some {
        let end = spec_kw(s, pos, "Cleanup"@)->0;
        Some((model::RuleModifier::Cleanup { span: model::Span { lo: pos, hi: end } }, end))
    } else {
        match spec_name(s, pos) {
            Some((n, end)) => Some(
                (model::RuleModifier::Named { name: n, span: model::Span { lo: pos, hi: end } }, end),
            ),
            None => None,
        }
    }
}

#[verifier::rlimit(100)]
#[verifier::spinoff_prover]
pub fn parse_rule_modifier(s: &[char], pos: usize, err: &mut ParseError) -> (r: Option<
    (ast::RuleModifier, usize),
>)
    requires
        pos <= s@.len(),
    ensures
        match (r, spec_rule_modifier(s@, pos as int)) {
            (Some((m, end)), Some((mm, mend))) => modifier_view(m) == mm && end == mend && pos
                < end <= s@.len(),
            (None, None) => true,
            _ => false,
        },
{
    match parse_sym(s, pos, '@', err) {
        Some(p1) => {
            match parse_name(s, p1, err) {
                Some((n, end)) => {
                    return Some(
                        (
                            ast::RuleModifier::FilterRef {
                                name: n,
                                span: Span { lo: pos, hi: end },
                            },
                            end,
                        ),
                    );
                },
                None => {},
            }
        },
        None => {},
    }
    match parse_matrix(s, pos, true, err) {
        Some((m, end)) => {
            return Some(
                (
                    ast::RuleModifier::FilterMatrix { matrix: m, span: Span { lo: pos, hi: end } },
                    end,
                ),
            );
        },
        None => {},
    }
    match parse_kw(s, pos, "Ltr", err) {
        Some(end) => {
            return Some((ast::RuleModifier::Ltr { span: Span { lo: pos, hi: end } }, end));
        },
        None => {},
    }
    match parse_kw(s, pos, "Rtl", err) {
        Some(end) => {
            return Some((ast::RuleModifier::Rtl { span: Span { lo: pos, hi: end } }, end));
        },
        None => {},
    }
    match parse_kw(s, pos, "Propagate", err) {
        Some(end) => {
            return Some((ast::RuleModifier::Propagate { span: Span { lo: pos, hi: end } }, end));
        },
        None => {},
    }
    match parse_kw(s, pos, "Defer", err) {
        Some(end) => {
            return Some((ast::RuleModifier::Defer { span: Span { lo: pos, hi: end } }, end));
        },
        None => {},
    }
    match parse_kw(s, pos, "Cleanup", err) {
        Some(end) => {
            return Some((ast::RuleModifier::Cleanup { span: Span { lo: pos, hi: end } }, end));
        },
        None => {},
    }
    match parse_name(s, pos, err) {
        Some((n, end)) => Some(
            (ast::RuleModifier::Named { name: n, span: Span { lo: pos, hi: end } }, end),
        ),
        None => None,
    }
}

/// A run of rule modifiers, each after token separation; the result
/// position stands after the last modifier.
pub open spec fn spec_modifiers(s: Seq<char>, pos: int) -> (Seq<model::RuleModifier>, int)
    decreases s.len() - pos,
{
    if !(0 <= pos <= s.len()) {
        (Seq::empty(), pos)
    } else {
        let q = spec_skip(s, pos);
        if pos <= q <= s.len() {
            match spec_rule_modifier(s, q) {
                Some((m, p1)) => {
                    if q < p1 <= s.len() && pos < p1 {
                        let (rest, end) = spec_modifiers(s, p1);
                        if rest.len() == 0 {
                            (seq![m], p1)
                        } else {
                            (seq![m] + rest, end)
                        }
                    } else {
                        (Seq::empty(), pos)
                    }
                },
                None => (Seq::empty(), pos),
            }
        } else {
            (Seq::empty(), pos)
        }
    }
}

#[verifier::rlimit(100)]
#[verifier::spinoff_prover]
fn parse_modifiers(s: &[char], pos: usize, err: &mut ParseError) -> (r: (
    Vec<ast::RuleModifier>,
    usize,
))
    requires
        pos <= s@.len(),
    ensures
        (modifiers_view(r.0@), r.1 as int) == spec_modifiers(s@, pos as int),
        pos <= r.1 <= s@.len(),
    decreases s@.len() - pos,
{
    let q = skip(s, pos);
    match parse_rule_modifier(s, q, err) {
        Some((m, p1)) => {
            let (rest, end) = parse_modifiers(s, p1, err);
            proof {
                lemma_modifiers_view_cons(m, rest@);
            }
            if rest.len() == 0 {
                let mut items: Vec<ast::RuleModifier> = Vec::new();
                let ghost mg = m;
                items.push(m);
                proof {
                    assert(items@ =~= seq![mg]);
                }
                (items, p1)
            } else {
                let ghost rest0 = rest@;
                let ghost mg = m;
                let mut items = rest;
                items.insert(0, m);
                proof {
                    assert(items@ =~= seq![mg] + rest0);
                }
                (items, end)
            }
        },
        None => (Vec::new(), pos),
    }
}

// ---------------------------------------------------------------------------
// Block expressions.
// ---------------------------------------------------------------------------

/// One block expression: `Unchanged`, `Off`, a `:name` block reference,
/// or a standard expression.
#[verifier::opaque]
pub open spec fn spec_expression(s: Seq<char>, pos: int) -> Option<(model::Expression, int)> {
    if spec_kw(s, pos, "Unchanged"@) is Some {
        let end = spec_kw(s, pos, "Unchanged"@)->0;
        Some((model::Expression::Unchanged { span: model::Span { lo: pos, hi: end } }, end))
    } else if spec_kw(s, pos, "Off"@) is Some {
        let end = spec_kw(s, pos, "Off"@)->0;
        Some((model::Expression::Off { span: model::Span { lo: pos, hi: end } }, end))
    } else if spec_sym(s, pos, ':') is Some && spec_rulename(s, pos + 1) is Some {
        let (n, end) = spec_rulename(s, pos + 1)->0;
        Some(
            (model::Expression::BlockRef { name: n, span: model::Span { lo: pos, hi: end } }, end),
        )
    } else {
        match spec_std_expr(s, pos) {
            Some((e, end)) => {
                if pos < end <= s.len() {
                    Some((model::Expression::Standard(e), end))
                } else {
                    None
                }
            },
            None => None,
        }
    }
}

#[verifier::rlimit(100)]
#[verifier::spinoff_prover]
fn parse_expression(s: &[char], pos: usize, err: &mut ParseError) -> (r: Option<
    (ast::Expression, usize),
>)
    requires
        pos <= s@.len(),
    ensures
        match (r, spec_expression(s@, pos as int)) {
            (Some((e, end)), Some((me, mend))) => expr_view(e) == me && end == mend && pos < end
                <= s@.len(),
            (None, None) => true,
            _ => false,
        },
{
    proof {
        reveal(spec_expression);
    }
    match parse_kw(s, pos, "Unchanged", err) {
        Some(end) => {
            return Some((ast::Expression::Unchanged { span: Span { lo: pos, hi: end } }, end));
        },
        None => {},
    }
    match parse_kw(s, pos, "Off", err) {
        Some(end) => {
            return Some((ast::Expression::Off { span: Span { lo: pos, hi: end } }, end));
        },
        None => {},
    }
    match parse_sym(s, pos, ':', err) {
        Some(p1) => {
            match parse_rulename(s, p1, err) {
                Some((n, end)) => {
                    return Some(
                        (ast::Expression::BlockRef { name: n, span: Span { lo: pos, hi: end } }, end),
                    );
                },
                None => {},
            }
        },
        None => {},
    }
    match parse_standard_expression(s, pos, err) {
        Some((e, end)) => Some((ast::Expression::Standard(e), end)),
        None => None,
    }
}

/// Further block expressions, each after token separation; the result
/// position stands after the last expression.
pub open spec fn spec_exprs_rest(s: Seq<char>, pos: int) -> (Seq<model::Expression>, int)
    decreases s.len() - pos,
{
    if !(0 <= pos <= s.len()) {
        (Seq::empty(), pos)
    } else {
        let q = spec_skip(s, pos);
        if pos <= q <= s.len() {
            match spec_expression(s, q) {
                Some((x, p1)) => {
                    if q < p1 <= s.len() && pos < p1 {
                        let (rest, end) = spec_exprs_rest(s, p1);
                        if rest.len() == 0 {
                            (seq![x], p1)
                        } else {
                            (seq![x] + rest, end)
                        }
                    } else {
                        (Seq::empty(), pos)
                    }
                },
                None => (Seq::empty(), pos),
            }
        } else {
            (Seq::empty(), pos)
        }
    }
}

#[verifier::rlimit(100)]
#[verifier::spinoff_prover]
fn parse_exprs_rest(s: &[char], pos: usize, err: &mut ParseError) -> (r: (
    Vec<ast::Expression>,
    usize,
))
    requires
        pos <= s@.len(),
    ensures
        (exprs_view(r.0@), r.1 as int) == spec_exprs_rest(s@, pos as int),
        pos <= r.1 <= s@.len(),
    decreases s@.len() - pos,
{
    let q = skip(s, pos);
    match parse_expression(s, q, err) {
        Some((x, p1)) => {
            let (rest, end) = parse_exprs_rest(s, p1, err);
            proof {
                lemma_exprs_view_cons(x, rest@);
            }
            if rest.len() == 0 {
                let mut items: Vec<ast::Expression> = Vec::new();
                let ghost xg = x;
                items.push(x);
                proof {
                    assert(items@ =~= seq![xg]);
                }
                (items, p1)
            } else {
                let ghost rest0 = rest@;
                let ghost xg = x;
                let mut items = rest;
                items.insert(0, x);
                proof {
                    assert(items@ =~= seq![xg] + rest0);
                }
                (items, end)
            }
        },
        None => (Vec::new(), pos),
    }
}

// ---------------------------------------------------------------------------
// Blocks.
// ---------------------------------------------------------------------------

/// One element of a block: a parenthesized nested block, or a run of one
/// or more expressions.
pub open spec fn spec_block_elem(s: Seq<char>, pos: int) -> Option<(model::BlockElement, int)>
    decreases s.len() - pos, 1int,
{
    let nested = match spec_sym(s, pos, '(') {
        Some(p1) => {
            let q = spec_skip(s, p1);
            if pos < q <= s.len() {
                match spec_block(s, q) {
                    Some((b, p2)) => {
                        if q < p2 <= s.len() {
                            let q2 = spec_skip(s, p2);
                            if p2 <= q2 <= s.len() {
                                match spec_sym(s, q2, ')') {
                                    Some(end) => Some(
                                        (
                                            model::BlockElement::Nested {
                                                block: Box::new(b),
                                                span: model::Span { lo: pos, hi: end },
                                            },
                                            end,
                                        ),
                                    ),
                                    None => None,
                                }
                            } else {
                                None
                            }
                        } else {
                            None
                        }
                    },
                    None => None,
                }
            } else {
                None
            }
        },
        None => None,
    };
    if nested is Some {
        nested
    } else {
        match spec_expression(s, pos) {
            Some((x0, p1)) => {
                if pos < p1 <= s.len() {
                    let (rest, p2) = spec_exprs_rest(s, p1);
                    if rest.len() == 0 {
                        Some(
                            (
                                model::BlockElement::Expressions {
                                    exprs: seq![x0],
                                    span: model::Span { lo: pos, hi: p1 },
                                },
                                p1,
                            ),
                        )
                    } else {
                        Some(
                            (
                                model::BlockElement::Expressions {
                                    exprs: seq![x0] + rest,
                                    span: model::Span { lo: pos, hi: p2 },
                                },
                                p2,
                            ),
                        )
                    }
                } else {
                    None
                }
            },
            None => None,
        }
    }
}

/// The `Then:`/`Else:` continuation branches of a block, each with its
/// own modifier set; the result position stands after the last branch.
pub open spec fn spec_branches(s: Seq<char>, pos: int) -> (Seq<model::BlockBranch>, int)
    decreases s.len() - pos, 2int,
{
    if !(0 <= pos <= s.len()) {
        (Seq::empty(), pos)
    } else {
        let q = spec_skip(s, pos);
        if pos <= q <= s.len() {
            let kind = if spec_kw(s, q, "Then"@) is Some {
                Some((ast::BranchKind::AllMatching, spec_kw(s, q, "Then"@)->0))
            } else if spec_kw(s, q, "Else"@) is Some {
                Some((ast::BranchKind::FirstMatching, spec_kw(s, q, "Else"@)->0))
            } else {
                None
            };
            match kind {
                Some((k, kend)) => {
                    if q < kend <= s.len() {
                        let (mods, p2) = spec_modifiers(s, kend);
                        if kend <= p2 <= s.len() {
                            let r = spec_skip(s, p2);
                            if p2 <= r <= s.len() {
                                match spec_sym(s, r, ':') {
                                    Some(p3) => {
                                        let q4 = spec_skip(s, p3);
                                        if pos < q4 <= s.len() {
                                            match spec_block_elem(s, q4) {
                                                Some((el, p4)) => {
                                                    if q4 < p4 <= s.len() && pos < p4 {
                                                        let (rest, end) = spec_branches(s, p4);
                                                        let br = model::BlockBranch {
                                                            kind: k,
                                                            modifiers: mods,
                                                            elem: el,
                                                            span: model::Span { lo: q, hi: p4 },
                                                        };
                                                        if rest.len() == 0 {
                                                            (seq![br], p4)
                                                        } else {
                                                            (seq![br] + rest, end)
                                                        }
                                                    } else {
                                                        (Seq::empty(), pos)
                                                    }
                                                },
                                                None => (Seq::empty(), pos),
                                            }
                                        } else {
                                            (Seq::empty(), pos)
                                        }
                                    },
                                    None => (Seq::empty(), pos),
                                }
                            } else {
                                (Seq::empty(), pos)
                            }
                        } else {
                            (Seq::empty(), pos)
                        }
                    } else {
                        (Seq::empty(), pos)
                    }
                },
                None => (Seq::empty(), pos),
            }
        } else {
            (Seq::empty(), pos)
        }
    }
}

/// A block: a first element, then `Then:`/`Else:` continuation branches.
#[verifier::opaque]
pub open spec fn spec_block(s: Seq<char>, pos: int) -> Option<(model::Block, int)>
    decreases s.len() - pos, 3int,
{
    match spec_block_elem(s, pos) {
        Some((first, p1)) => {
            if pos < p1 <= s.len() {
                let (branches, p2) = spec_branches(s, p1);
                if branches.len() == 0 {
                    Some(
                        (
                            model::Block {
                                first: first,
                                branches: branches,
                                span: model::Span { lo: pos, hi: p1 },
                            },
                            p1,
                        ),
                    )
                } else {
                    Some(
                        (
                            model::Block {
                                first: first,
                                branches: branches,
                                span: model::Span { lo: pos, hi: p2 },
                            },
                            p2,
                        ),
                    )
                }
            } else {
                None
            }
        },
        None => None,
    }
}

#[verifier::rlimit(100)]
#[verifier::spinoff_prover]
fn parse_block_elem(s: &[char], pos: usize, err: &mut ParseError) -> (r: Option<
    (ast::BlockElement, usize),
>)
    requires
        pos <= s@.len(),
    ensures
        match (r, spec_block_elem(s@, pos as int)) {
            (Some((b, end)), Some((mb, mend))) => block_elem_view(b) == mb && end == mend && pos
                < end <= s@.len(),
            (None, None) => true,
            _ => false,
        },
    decreases s@.len() - pos, 1int,
{
    match parse_sym(s, pos, '(', err) {
        Some(p1) => {
            let q = skip(s, p1);
            match parse_block(s, q, err) {
                Some((b, p2)) => {
                    let q2 = skip(s, p2);
                    match parse_sym(s, q2, ')', err) {
                        Some(end) => {
                            return Some(
                                (
                                    ast::BlockElement::Nested {
                                        block: Box::new(b),
                                        span: Span { lo: pos, hi: end },
                                    },
                                    end,
                                ),
                            );
                        },
                        None => {},
                    }
                },
                None => {},
            }
        },
        None => {},
    }
    match parse_expression(s, pos, err) {
        Some((x0, p1)) => {
            let (rest, p2) = parse_exprs_rest(s, p1, err);
            proof {
                lemma_exprs_view_cons(x0, rest@);
            }
            if rest.len() == 0 {
                let mut exprs: Vec<ast::Expression> = Vec::new();
                let ghost xg = x0;
                exprs.push(x0);
                proof {
                    assert(exprs@ =~= seq![xg]);
                }
                Some(
                    (
                        ast::BlockElement::Expressions { exprs, span: Span { lo: pos, hi: p1 } },
                        p1,
                    ),
                )
            } else {
                let ghost rest0 = rest@;
                let ghost xg = x0;
                let mut exprs = rest;
                exprs.insert(0, x0);
                proof {
                    assert(exprs@ =~= seq![xg] + rest0);
                }
                Some(
                    (
                        ast::BlockElement::Expressions { exprs, span: Span { lo: pos, hi: p2 } },
                        p2,
                    ),
                )
            }
        },
        None => None,
    }
}

#[verifier::rlimit(100)]
#[verifier::spinoff_prover]
fn parse_branches(s: &[char], pos: usize, err: &mut ParseError) -> (r: (
    Vec<ast::BlockBranch>,
    usize,
))
    requires
        pos <= s@.len(),
    ensures
        (branches_view(r.0@), r.1 as int) == spec_branches(s@, pos as int),
        pos <= r.1 <= s@.len(),
    decreases s@.len() - pos, 2int,
{
    let q = skip(s, pos);
    let kind = match parse_kw(s, q, "Then", err) {
        Some(kend) => Some((ast::BranchKind::AllMatching, kend)),
        None => {
            match parse_kw(s, q, "Else", err) {
                Some(kend) => Some((ast::BranchKind::FirstMatching, kend)),
                None => None,
            }
        },
    };
    match kind {
        Some((k, kend)) => {
            let (mods, p2) = parse_modifiers(s, kend, err);
            let r1 = skip(s, p2);
            match parse_sym(s, r1, ':', err) {
                Some(p3) => {
                    let q4 = skip(s, p3);
                    match parse_block_elem(s, q4, err) {
                        Some((el, p4)) => {
                            let (rest, end) = parse_branches(s, p4, err);
                            let br = ast::BlockBranch {
                                kind: k,
                                modifiers: mods,
                                elem: el,
                                span: Span { lo: q, hi: p4 },
                            };
                            proof {
                                lemma_branches_view_cons(br, rest@);
                            }
                            if rest.len() == 0 {
                                let mut items: Vec<ast::BlockBranch> = Vec::new();
                                let ghost bg = br;
                                items.push(br);
                                proof {
                                    assert(items@ =~= seq![bg]);
                                }
                                (items, p4)
                            } else {
                                let ghost rest0 = rest@;
                                let ghost bg = br;
                                let mut items = rest;
                                items.insert(0, br);
                                proof {
                                    assert(items@ =~= seq![bg] + rest0);
                                }
                                (items, end)
                            }
                        },
                        None => (Vec::new(), pos),
                    }
                },
                None => (Vec::new(), pos),
            }
        },
        None => (Vec::new(), pos),
    }
}

#[verifier::rlimit(100)]
#[verifier::spinoff_prover]
pub fn parse_block(s: &[char], pos: usize, err: &mut ParseError) -> (r: Option<
    (ast::Block, usize),
>)
    requires
        pos <= s@.len(),
    ensures
        match (r, spec_block(s@, pos as int)) {
            (Some((b, end)), Some((mb, mend))) => block_view(b) == mb && end == mend && pos < end
                <= s@.len(),
            (None, None) => true,
            _ => false,
        },
    decreases s@.len() - pos, 3int,
{
    proof {
        reveal(spec_block);
    }    match parse_block_elem(s, pos, err) {
        Some((first, p1)) => {
            let (branches, p2) = parse_branches(s, p1, err);
            if branches.len() == 0 {
                proof {
                    assert(branches@ =~= Seq::<ast::BlockBranch>::empty());
                }
                Some((ast::Block { first, branches, span: Span { lo: pos, hi: p1 } }, p1))
            } else {
                Some((ast::Block { first, branches, span: Span { lo: pos, hi: p2 } }, p2))
            }
        },
        None => None,
    }
}

// ---------------------------------------------------------------------------
// Change rules and romanizers.
// ---------------------------------------------------------------------------

/// `name mods* :? block`: a named change rule.
#[verifier::opaque]
pub open spec fn spec_change_rule(s: Seq<char>, pos: int) -> Option<(model::ChangeRule, int)> {
    match spec_rulename(s, pos) {
        Some((n, p1)) => {
            if pos < p1 <= s.len() {
                let (mods, p2) = spec_modifiers(s, p1);
                if p1 <= p2 <= s.len() {
                    let q = spec_skip(s, p2);
                    if p2 <= q <= s.len() {
                        let p3 = match spec_sym(s, q, ':') {
                            Some(a) => spec_skip(s, a),
                            None => q,
                        };
                        if q <= p3 <= s.len() {
                            match spec_block(s, p3) {
                                Some((b, end)) => {
                                    if p3 < end <= s.len() {
                                        Some(
                                            (
                                                model::ChangeRule {
                                                    name: n,
                                                    modifiers: mods,
                                                    block: b,
                                                    span: model::Span { lo: pos, hi: end },
                                                },
                                                end,
                                            ),
                                        )
                                    } else {
                                        None
                                    }
                                },
                                None => None,
                            }
                        } else {
                            None
                        }
                    } else {
                        None
                    }
                } else {
                    None
                }
            } else {
                None
            }
        },
        None => None,
    }
}

#[verifier::rlimit(100)]
#[verifier::spinoff_prover]
pub fn parse_change_rule(s: &[char], pos: usize, err: &mut ParseError) -> (r: Option<
    (ast::ChangeRule, usize),
>)
    requires
        pos <= s@.len(),
    ensures
        match (r, spec_change_rule(s@, pos as int)) {
            (Some((c, end)), Some((mc, mend))) => crate::model::change_rule_view(c) == mc && end
                == mend && pos < end <= s@.len(),
            (None, None) => true,
            _ => false,
        },
{
    proof {
        reveal(spec_change_rule);
    }    match parse_rulename(s, pos, err) {
        Some((n, p1)) => {
            let (mods, p2) = parse_modifiers(s, p1, err);
            let q = skip(s, p2);
            let p3 = match parse_sym(s, q, ':', err) {
                Some(a) => skip(s, a),
                None => q,
            };
            match parse_block(s, p3, err) {
                Some((b, end)) => Some(
                    (
                        ast::ChangeRule {
                            name: n,
                            modifiers: mods,
                            block: b,
                            span: Span { lo: pos, hi: end },
                        },
                        end,
                    ),
                ),
                None => None,
            }
        },
        None => None,
    }
}

/// The `Literal : block` tail shared by the three romanizer forms; the
/// result is the block and the end position.
#[verifier::opaque]
pub open spec fn spec_literal_block(s: Seq<char>, pos: int) -> Option<(model::Block, int)> {
    match spec_kw(s, pos, "Literal"@) {
        Some(l1) => {
            let q = spec_skip(s, l1);
            if l1 <= q <= s.len() {
                match spec_sym(s, q, ':') {
                    Some(p1) => {
                        let p2 = spec_skip(s, p1);
                        if p1 <= p2 <= s.len() {
                            match spec_block(s, p2) {
                                Some((b, end)) => {
                                    if p2 < end <= s.len() {
                                        Some((b, end))
                                    } else {
                                        None
                                    }
                                },
                                None => None,
                            }
                        } else {
                            None
                        }
                    },
                    None => None,
                }
            } else {
                None
            }
        },
        None => None,
    }
}

fn parse_literal_block(s: &[char], pos: usize, err: &mut ParseError) -> (r: Option<
    (ast::Block, usize),
>)
    requires
        pos <= s@.len(),
    ensures
        match (r, spec_literal_block(s@, pos as int)) {
            (Some((b, end)), Some((mb, mend))) => block_view(b) == mb && end == mend && pos < end
                <= s@.len(),
            (None, None) => true,
            _ => false,
        },
{
    proof {
        reveal(spec_literal_block);
    }    match parse_kw(s, pos, "Literal", err) {
        Some(l1) => {
            let q = skip(s, l1);
            match parse_sym(s, q, ':', err) {
                Some(p1) => {
                    let p2 = skip(s, p1);
                    parse_block(s, p2, err)
                },
                None => None,
            }
        },
        None => None,
    }
}

/// `Deromanizer Literal : block`.
pub open spec fn spec_deromanizer(s: Seq<char>, pos: int) -> Option<(model::Statement, int)> {
    match spec_kw(s, pos, "Deromanizer"@) {
        Some(pk) => {
            let p0 = spec_skip(s, pk);
            if pk <= p0 <= s.len() {
                match spec_literal_block(s, p0) {
                    Some((b, end)) => Some(
                        (
                            model::Statement::Deromanizer {
                                block: b,
                                span: model::Span { lo: pos, hi: end },
                            },
                            end,
                        ),
                    ),
                    None => None,
                }
            } else {
                None
            }
        },
        None => None,
    }
}

/// `Romanizer-name Literal : block`.
pub open spec fn spec_inter_romanizer(s: Seq<char>, pos: int) -> Option<(model::Statement, int)> {
    match spec_kw(s, pos, "Romanizer-"@) {
        Some(pk) => {
            match spec_rulename(s, pk) {
                Some((n, p1)) => {
                    if pk < p1 <= s.len() {
                        let p2 = spec_skip(s, p1);
                        if p1 <= p2 <= s.len() {
                            match spec_literal_block(s, p2) {
                                Some((b, end)) => Some(
                                    (
                                        model::Statement::InterRomanizer {
                                            name: n,
                                            block: b,
                                            span: model::Span { lo: pos, hi: end },
                                        },
                                        end,
                                    ),
                                ),
                                None => None,
                            }
                        } else {
                            None
                        }
                    } else {
                        None
                    }
                },
                None => None,
            }
        },
        None => None,
    }
}

/// `Romanizer Literal : block`.
pub open spec fn spec_romanizer(s: Seq<char>, pos: int) -> Option<(model::Statement, int)> {
    match spec_kw(s, pos, "Romanizer"@) {
        Some(pk) => {
            let p0 = spec_skip(s, pk);
            if pk <= p0 <= s.len() {
                match spec_literal_block(s, p0) {
                    Some((b, end)) => Some(
                        (
                            model::Statement::Romanizer {
                                block: b,
                                span: model::Span { lo: pos, hi: end },
                            },
                            end,
                        ),
                    ),
                    None => None,
                }
            } else {
                None
            }
        },
        None => None,
    }
}

// ---------------------------------------------------------------------------
// The statement dispatcher and the file parse.
// ---------------------------------------------------------------------------

/// The span a feature declaration carries.
pub open spec fn fdecl_span(d: model::FeatureDecl) -> model::Span {
    match d {
        model::FeatureDecl::Bool(f) => f.span,
        model::FeatureDecl::Valued(v) => v.span,
    }
}

/// Each feature declaration as a statement of its own, in order.
pub open spec fn feature_stmts(ds: Seq<model::FeatureDecl>) -> Seq<model::Statement>
    decreases ds.len(),
{
    if ds.len() == 0 {
        Seq::empty()
    } else {
        seq![model::Statement::Feature { decl: ds[0], span: fdecl_span(ds[0]) }] + feature_stmts(
            ds.drop_first(),
        )
    }
}

fn fdecl_span_exec(d: &ast::FeatureDecl) -> (r: Span)
    ensures
        span_view(r) == fdecl_span(feature_decl_view(*d)),
{
    match d {
        ast::FeatureDecl::Bool(f) => f.span,
        ast::FeatureDecl::Valued(v) => v.span,
    }
}

fn feature_stmts_exec(ds: Vec<ast::FeatureDecl>) -> (r: Vec<ast::Statement>)
    ensures
        stmts_view(r@) == feature_stmts(fdecls_view(ds@)),
    decreases ds@.len(),
{
    let mut ds = ds;
    if ds.len() == 0 {
        proof {
            assert(stmts_view(Seq::<ast::Statement>::empty()) =~= Seq::<model::Statement>::empty());
        }
        Vec::new()
    } else {
        let ghost dsg = ds@;
        let d = ds.remove(0);
        proof {
            assert(ds@ =~= dsg.drop_first());
            assert(dsg =~= seq![d] + dsg.drop_first());
            lemma_fdecls_view_cons(d, dsg.drop_first());
        }
        let sp = fdecl_span_exec(&d);
        let rest = feature_stmts_exec(ds);
        let st = ast::Statement::Feature { decl: d, span: sp };
        proof {
            lemma_stmts_view_cons(st, rest@);
            assert(fdecls_view(dsg).drop_first() =~= fdecls_view(dsg.drop_first()));
            assert(fdecls_view(dsg)[0] == feature_decl_view(d));
        }
        let ghost rest0 = rest@;
        let ghost stg = st;
        let mut items = rest;
        items.insert(0, st);
        proof {
            assert(items@ =~= seq![stg] + rest0);
        }
        items
    }
}

/// One top-level statement, tried in the fixed priority order: feature,
/// diacritic, symbol, class, element and syllable declarations, then the
/// deromanizer, inter-romanizer and romanizer forms, then a change rule,
/// then a bare standard expression. A feature declaration yields one
/// statement per declared feature; every other form yields one.
pub open spec fn spec_statement(s: Seq<char>, pos: int) -> Option<(Seq<model::Statement>, int)> {
    if spec_feature_decl(s, pos) is Some {
        let (ds, end) = spec_feature_decl(s, pos)->0;
        if pos < end <= s.len() {
            Some((feature_stmts(ds), end))
        } else {
            None
        }
    } else if spec_diacritic_decl(s, pos) is Some {
        let (d, end) = spec_diacritic_decl(s, pos)->0;
        if pos < end <= s.len() {
            Some(
                (
                    seq![
                        model::Statement::Diacritic {
                            decl: d,
                            span: model::Span { lo: pos, hi: end },
                        },
                    ],
                    end,
                ),
            )
        } else {
            None
        }
    } else if spec_symbol_decl(s, pos) is Some {
        let (d, end) = spec_symbol_decl(s, pos)->0;
        if pos < end <= s.len() {
            Some(
                (
                    seq![
                        model::Statement::Symbol { decl: d, span: model::Span { lo: pos, hi: end } },
                    ],
                    end,
                ),
            )
        } else {
            None
        }
    } else if spec_class_decl(s, pos) is Some {
        let (d, end) = spec_class_decl(s, pos)->0;
        if pos < end <= s.len() {
            Some(
                (
                    seq![
                        model::Statement::Class { decl: d, span: model::Span { lo: pos, hi: end } },
                    ],
                    end,
                ),
            )
        } else {
            None
        }
    } else if spec_element_decl(s, pos) is Some {
        let (d, end) = spec_element_decl(s, pos)->0;
        if pos < end <= s.len() {
            Some(
                (
                    seq![
                        model::Statement::Element { decl: d, span: model::Span { lo: pos, hi: end } },
                    ],
                    end,
                ),
            )
        } else {
            None
        }
    } else if spec_syllable_decl(s, pos) is Some {
        let (d, end) = spec_syllable_decl(s, pos)->0;
        if pos < end <= s.len() {
            Some(
                (
                    seq![
                        model::Statement::Syllable { decl: d, span: model::Span { lo: pos, hi: end } },
                    ],
                    end,
                ),
            )
        } else {
            None
        }
    } else if spec_deromanizer(s, pos) is Some {
        let (st, end) = spec_deromanizer(s, pos)->0;
        if pos < end <= s.len() {
            Some((seq![st], end))
        } else {
            None
        }
    } else if spec_inter_romanizer(s, pos) is Some {
        let (st, end) = spec_inter_romanizer(s, pos)->0;
        if pos < end <= s.len() {
            Some((seq![st], end))
        } else {
            None
        }
    } else if spec_romanizer(s, pos) is Some {
        let (st, end) = spec_romanizer(s, pos)->0;
        if pos < end <= s.len() {
            Some((seq![st], end))
        } else {
            None
        }
    } else if spec_change_rule(s, pos) is Some {
        let (c, end) = spec_change_rule(s, pos)->0;
        if pos < end <= s.len() {
            Some(
                (
                    seq![
                        model::Statement::Rule { rule: c, span: model::Span { lo: pos, hi: end } },
                    ],
                    end,
                ),
            )
        } else {
            None
        }
    } else {
        match spec_std_expr(s, pos) {
            Some((e, end)) => {
                if pos < end <= s.len() {
                    Some(
                        (
                            seq![
                                model::Statement::Expression {
                                    expr: e,
                                    span: model::Span { lo: pos, hi: end },
                                },
                            ],
                            end,
                        ),
                    )
                } else {
                    None
                }
            },
            None => None,
        }
    }
}

#[verifier::rlimit(100)]
#[verifier::spinoff_prover]
pub fn parse_statement(s: &[char], pos: usize, err: &mut ParseError) -> (r: Option<
    (Vec<ast::Statement>, usize),
>)
    requires
        pos <= s@.len(),
    ensures
        match (r, spec_statement(s@, pos as int)) {
            (Some((v, end)), Some((mv, mend))) => stmts_view(v@) == mv && end == mend && pos < end
                <= s@.len(),
            (None, None) => true,
            _ => false,
        },
{
    match parse_feature_decl(s, pos, err) {
        Some((ds, end)) => {
            let out = feature_stmts_exec(ds);
            return Some((out, end));
        },
        None => {},
    }
    match parse_diacritic_decl(s, pos, err) {
        Some((d, end)) => {
            let st = ast::Statement::Diacritic { decl: d, span: Span { lo: pos, hi: end } };
            let ghost stg = st;
            let mut out: Vec<ast::Statement> = Vec::new();
            out.push(st);
            proof {
                lemma_stmts_view_cons(stg, Seq::<ast::Statement>::empty());
                assert(out@ =~= seq![stg]);
            }
            return Some((out, end));
        },
        None => {},
    }
    match parse_symbol_decl(s, pos, err) {
        Some((d, end)) => {
            let st = ast::Statement::Symbol { decl: d, span: Span { lo: pos, hi: end } };
            let ghost stg = st;
            let mut out: Vec<ast::Statement> = Vec::new();
            out.push(st);
            proof {
                lemma_stmts_view_cons(stg, Seq::<ast::Statement>::empty());
                assert(out@ =~= seq![stg]);
            }
            return Some((out, end));
        },
        None => {},
    }
    match parse_class_decl(s, pos, err) {
        Some((d, end)) => {
            let st = ast::Statement::Class { decl: d, span: Span { lo: pos, hi: end } };
            let ghost stg = st;
            let mut out: Vec<ast::Statement> = Vec::new();
            out.push(st);
            proof {
                lemma_stmts_view_cons(stg, Seq::<ast::Statement>::empty());
                assert(out@ =~= seq![stg]);
            }
            return Some((out, end));
        },
        None => {},
    }
    match parse_element_decl(s, pos, err) {
        Some((d, end)) => {
            let st = ast::Statement::Element { decl: d, span: Span { lo: pos, hi: end } };
            let ghost stg = st;
            let mut out: Vec<ast::Statement> = Vec::new();
            out.push(st);
            proof {
                lemma_stmts_view_cons(stg, Seq::<ast::Statement>::empty());
                assert(out@ =~= seq![stg]);
            }
            return Some((out, end));
        },
        None => {},
    }
    match parse_syllable_decl(s, pos, err) {
        Some((d, end)) => {
            let st = ast::Statement::Syllable { decl: d, span: Span { lo: pos, hi: end } };
            let ghost stg = st;
            let mut out: Vec<ast::Statement> = Vec::new();
            out.push(st);
            proof {
                lemma_stmts_view_cons(stg, Seq::<ast::Statement>::empty());
                assert(out@ =~= seq![stg]);
            }
            return Some((out, end));
        },
        None => {},
    }
    match parse_kw(s, pos, "Deromanizer", err) {
        Some(pk) => {
            let p0 = skip(s, pk);
            match parse_literal_block(s, p0, err) {
                Some((b, end)) => {
                    let st = ast::Statement::Deromanizer {
                        block: b,
                        span: Span { lo: pos, hi: end },
                    };
                    let ghost stg = st;
                    let mut out: Vec<ast::Statement> = Vec::new();
                    out.push(st);
                    proof {
                        lemma_stmts_view_cons(stg, Seq::<ast::Statement>::empty());
                        assert(out@ =~= seq![stg]);
                    }
                    return Some((out, end));
                },
                None => {},
            }
        },
        None => {},
    }
    match parse_kw(s, pos, "Romanizer-", err) {
        Some(pk) => {
            match parse_rulename(s, pk, err) {
                Some((n, p1)) => {
                    let p2 = skip(s, p1);
                    match parse_literal_block(s, p2, err) {
                        Some((b, end)) => {
                            let st = ast::Statement::InterRomanizer {
                                name: n,
                                block: b,
                                span: Span { lo: pos, hi: end },
                            };
                            let ghost stg = st;
                            let mut out: Vec<ast::Statement> = Vec::new();
                            out.push(st);
                            proof {
                                lemma_stmts_view_cons(stg, Seq::<ast::Statement>::empty());
                                assert(out@ =~= seq![stg]);
                            }
                            return Some((out, end));
                        },
                        None => {},
                    }
                },
                None => {},
            }
        },
        None => {},
    }
    match parse_kw(s, pos, "Romanizer", err) {
        Some(pk) => {
            let p0 = skip(s, pk);
            match parse_literal_block(s, p0, err) {
                Some((b, end)) => {
                    let st = ast::Statement::Romanizer { block: b, span: Span { lo: pos, hi: end } };
                    let ghost stg = st;
                    let mut out: Vec<ast::Statement> = Vec::new();
                    out.push(st);
                    proof {
                        lemma_stmts_view_cons(stg, Seq::<ast::Statement>::empty());
                        assert(out@ =~= seq![stg]);
                    }
                    return Some((out, end));
                },
                None => {},
            }
        },
        None => {},
    }
    match parse_change_rule(s, pos, err) {
        Some((c, end)) => {
            let st = ast::Statement::Rule { rule: c, span: Span { lo: pos, hi: end } };
            let ghost stg = st;
            let mut out: Vec<ast::Statement> = Vec::new();
            out.push(st);
            proof {
                lemma_stmts_view_cons(stg, Seq::<ast::Statement>::empty());
                assert(out@ =~= seq![stg]);
            }
            return Some((out, end));
        },
        None => {},
    }
    match parse_standard_expression(s, pos, err) {
        Some((e, end)) => {
            let st = ast::Statement::Expression { expr: e, span: Span { lo: pos, hi: end } };
            let ghost stg = st;
            let mut out: Vec<ast::Statement> = Vec::new();
            out.push(st);
            proof {
                lemma_stmts_view_cons(stg, Seq::<ast::Statement>::empty());
                assert(out@ =~= seq![stg]);
            }
            Some((out, end))
        },
        None => None,
    }
}

/// The statements from `pos` to the end of the input, each followed by
/// token separation.
pub open spec fn spec_file_rest(s: Seq<char>, pos: int) -> Option<Seq<model::Statement>>
    decreases s.len() - pos,
{
    if !(0 <= pos <= s.len()) {
        None
    } else if pos == s.len() {
        Some(Seq::empty())
    } else {
        match spec_statement(s, pos) {
            Some((sts, p1)) => {
                if pos < p1 <= s.len() {
                    let q = spec_skip(s, p1);
                    if pos < q <= s.len() {
                        match spec_file_rest(s, q) {
                            Some(rest) => Some(sts + rest),
                            None => None,
                        }
                    } else {
                        None
                    }
                } else {
                    None
                }
            },
            None => None,
        }
    }
}

/// A whole rule file: leading separation, then statements to the end of
/// the input. `None` is a parse failure.
pub open spec fn spec_file(s: Seq<char>) -> Option<Seq<model::Statement>> {
    let q = spec_skip(s, 0);
    if 0 <= q <= s.len() {
        spec_file_rest(s, q)
    } else {
        None
    }
}

fn parse_file_rest(s: &[char], pos: usize, err: &mut ParseError) -> (r: Option<
    Vec<ast::Statement>,
>)
    requires
        pos <= s@.len(),
    ensures
        match (r, spec_file_rest(s@, pos as int)) {
            (Some(v), Some(m)) => stmts_view(v@) == m,
            (None, None) => true,
            _ => false,
        },
    decreases s@.len() - pos,
{
    if pos == s.len() {
        proof {
            assert(stmts_view(Seq::<ast::Statement>::empty()) =~= Seq::<model::Statement>::empty());
        }
        return Some(Vec::new());
    }
    match parse_statement(s, pos, err) {
        Some((sts, p1)) => {
            let q = skip(s, p1);
            match parse_file_rest(s, q, err) {
                Some(rest) => {
                    let ghost stsg = sts@;
                    let ghost restg = rest@;
                    let mut out = sts;
                    let mut tail = rest;
                    out.append(&mut tail);
                    proof {
                        assert(out@ =~= stsg + restg);
                        lemma_stmts_view_concat(stsg, restg);
                    }
                    Some(out)
                },
                None => None,
            }
        },
        None => None,
    }
}

/// Parses a whole rule file: the ordered statement sequence on success,
/// or the furthest failure position with the token kinds expected there.
pub fn parse_file(s: &[char]) -> (r: Result<Vec<ast::Statement>, ParseError>)
    ensures
        r matches Ok(v) ==> Some(stmts_view(v@)) == spec_file(s@),
        r is Err ==> spec_file(s@) is None,
{
    let mut err = ParseError { pos: 0, expected: Vec::new() };
    let q = skip(s, 0);
    match parse_file_rest(s, q, &mut err) {
        Some(v) => Ok(v),
        None => Err(err),
    }
}

} // verus!
