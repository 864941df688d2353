//! The pattern-expression grammar: precedence, interfix chains, and
//! environments.

use lsc::ast::{
    EnvClause, Environment, InterfixOp, ParseError, RepeatRange, RuleElement,
};
use lsc::elements::{parse_compound_env, parse_matrix, parse_rule_element};

fn chars(s: &str) -> Vec<char> {
    s.chars().collect()
}

fn fresh_err() -> ParseError {
    ParseError { pos: 0, expected: Vec::new() }
}

#[test]
fn repeat_binds_tighter_than_sequence() {
    let s = chars("ab+");
    let mut err = fresh_err();
    let (e, end) = parse_rule_element(&s, 0, &mut err).expect("parse");
    assert_eq!(end, 3);
    match e {
        RuleElement::Sequence { items, .. } => {
            assert_eq!(items.len(), 2);
            match &items[0] {
                RuleElement::Text { ch, negated, .. } => {
                    assert_eq!(*ch, 'a');
                    assert!(!negated);
                }
                other => panic!("expected text atom, got {:?}", other),
            }
            match &items[1] {
                RuleElement::Repeat { inner, range, .. } => {
                    assert_eq!(*range, RepeatRange::AtLeastOne);
                    match &**inner {
                        RuleElement::Text { ch, .. } => assert_eq!(*ch, 'b'),
                        other => panic!("expected text atom, got {:?}", other),
                    }
                }
                other => panic!("expected repeat, got {:?}", other),
            }
        }
        other => panic!("expected sequence, got {:?}", other),
    }
}

#[test]
fn negation_binds_before_postfix() {
    // In the resolution order the negated alternative is tried before the
    // postfix one, so `!a$1` is `!a` followed by the capture reference
    // `$1`, not a capture of the bare atom.
    let s = chars("!a$1");
    let mut err = fresh_err();
    let (e, end) = parse_rule_element(&s, 0, &mut err).expect("parse");
    assert_eq!(end, 4);
    match e {
        RuleElement::Sequence { items, .. } => {
            assert_eq!(items.len(), 2);
            match &items[0] {
                RuleElement::Negated { inner, .. } => match &**inner {
                    RuleElement::Text { ch, .. } => assert_eq!(*ch, 'a'),
                    other => panic!("expected text atom, got {:?}", other),
                },
                other => panic!("expected negated atom, got {:?}", other),
            }
            match &items[1] {
                RuleElement::CaptureRef { index, inexact, syl_boundary, .. } => {
                    assert_eq!(*index, 1);
                    assert!(!inexact);
                    assert!(!syl_boundary);
                }
                other => panic!("expected capture reference, got {:?}", other),
            }
        }
        other => panic!("expected sequence, got {:?}", other),
    }
}

#[test]
fn interfix_chain_is_one_node_with_three_operands() {
    let s = chars("a&b>c");
    let mut err = fresh_err();
    let (e, end) = parse_rule_element(&s, 0, &mut err).expect("parse");
    assert_eq!(end, 5);
    match e {
        RuleElement::Interfix { items, ops, .. } => {
            assert_eq!(items.len(), 3);
            assert_eq!(ops, vec![InterfixOp::Intersect, InterfixOp::Transform]);
            let got: Vec<char> = items
                .iter()
                .map(|i| match i {
                    RuleElement::Text { ch, .. } => *ch,
                    other => panic!("expected text atom, got {:?}", other),
                })
                .collect();
            assert_eq!(got, vec!['a', 'b', 'c']);
        }
        other => panic!("expected interfix, got {:?}", other),
    }
}

#[test]
fn interfix_refuses_whitespace() {
    // With a space before `&` the interfix alternative fails; the parse of
    // a rule element stops after the lone `a`, which stands for itself.
    let s = chars("a &b");
    let mut err = fresh_err();
    let (e, end) = parse_rule_element(&s, 0, &mut err).expect("parse");
    assert_eq!(end, 1);
    match e {
        RuleElement::Text { ch, negated, .. } => {
            assert_eq!(ch, 'a');
            assert!(!negated);
        }
        other => panic!("expected text atom, got {:?}", other),
    }
}

#[test]
fn condition_environment_before_and_after() {
    let s = chars("/a_b");
    let mut err = fresh_err();
    let (env, end) = parse_compound_env(&s, 0, &mut err).expect("parse");
    assert_eq!(end, 4);
    assert!(env.exclusion.is_none());
    match env.condition.expect("condition") {
        EnvClause::Single(e) => match *e {
            Environment::Anchored { before, after, .. } => {
                match before.expect("before") {
                    RuleElement::Text { ch, .. } => assert_eq!(ch, 'a'),
                    other => panic!("expected text atom, got {:?}", other),
                }
                match after.expect("after") {
                    RuleElement::Text { ch, .. } => assert_eq!(ch, 'b'),
                    other => panic!("expected text atom, got {:?}", other),
                }
            }
            other => panic!("expected anchored environment, got {:?}", other),
        },
        other => panic!("expected single environment, got {:?}", other),
    }
}

#[test]
fn exclusion_with_disjunction_of_two_environments() {
    let s = chars("//{a_b, c_d}");
    let mut err = fresh_err();
    let (env, end) = parse_compound_env(&s, 0, &mut err).expect("parse");
    assert_eq!(end, s.len());
    assert!(env.condition.is_none());
    match env.exclusion.expect("exclusion") {
        EnvClause::Choice { envs, .. } => {
            assert_eq!(envs.len(), 2);
            for (env, (b, a)) in envs.iter().zip([('a', 'b'), ('c', 'd')]) {
                match env {
                    Environment::Anchored { before, after, .. } => {
                        match before.as_ref().expect("before") {
                            RuleElement::Text { ch, .. } => assert_eq!(*ch, b),
                            other => panic!("expected text atom, got {:?}", other),
                        }
                        match after.as_ref().expect("after") {
                            RuleElement::Text { ch, .. } => assert_eq!(*ch, a),
                            other => panic!("expected text atom, got {:?}", other),
                        }
                    }
                    other => panic!("expected anchored environment, got {:?}", other),
                }
            }
        }
        other => panic!("expected environment list, got {:?}", other),
    }
}

#[test]
fn plain_matrix_values() {
    let s = chars("[+voiced -nasal]");
    let mut err = fresh_err();
    let (m, end) = parse_matrix(&s, 0, false, &mut err).expect("parse");
    assert_eq!(end, s.len());
    assert_eq!(m.values.len(), 2);
}

#[test]
fn reparse_of_a_node_span_reproduces_the_node() {
    // The second item of `ab+` covers `b+`; parsing that span alone, as a
    // rule element, rebuilds the same repeat node shifted to offset zero.
    let s = chars("ab+");
    let mut err = fresh_err();
    let (e, _) = parse_rule_element(&s, 0, &mut err).expect("parse");
    let item = match e {
        RuleElement::Sequence { items, .. } => items.into_iter().nth(1).unwrap(),
        other => panic!("expected sequence, got {:?}", other),
    };
    let (lo, hi) = match &item {
        RuleElement::Repeat { span, .. } => (span.lo, span.hi),
        other => panic!("expected repeat, got {:?}", other),
    };
    let sub: Vec<char> = s[lo..hi].to_vec();
    let mut err2 = fresh_err();
    let (again, end2) = parse_rule_element(&sub, 0, &mut err2).expect("reparse");
    assert_eq!(end2, hi - lo);
    match (item, again) {
        (
            RuleElement::Repeat { inner: i1, range: r1, .. },
            RuleElement::Repeat { inner: i2, range: r2, .. },
        ) => {
            assert_eq!(r1, r2);
            match (*i1, *i2) {
                (
                    RuleElement::Text { ch: c1, negated: n1, .. },
                    RuleElement::Text { ch: c2, negated: n2, .. },
                ) => {
                    assert_eq!(c1, c2);
                    assert_eq!(n1, n2);
                }
                other => panic!("expected text atoms, got {:?}", other),
            }
        }
        other => panic!("expected repeats, got {:?}", other),
    }
}

#[test]
fn bounded_list_with_trailing_separator() {
    let s = chars("{a, b,}");
    let mut err = fresh_err();
    let (e, end) = parse_rule_element(&s, 0, &mut err).expect("parse");
    assert_eq!(end, s.len());
    match e {
        RuleElement::List { items, .. } => assert_eq!(items.len(), 2),
        other => panic!("expected list, got {:?}", other),
    }
}

#[test]
fn group_wraps_single_element() {
    let s = chars("(ab)");
    let mut err = fresh_err();
    let (e, end) = parse_rule_element(&s, 0, &mut err).expect("parse");
    assert_eq!(end, 4);
    assert!(matches!(e, RuleElement::Group { .. }));
}

#[test]
fn repeat_ranges() {
    let cases: Vec<(&str, RepeatRange)> = vec![
        ("a*3", RepeatRange::Exactly(3)),
        ("a*", RepeatRange::ZeroOrMore),
        ("a?", RepeatRange::Optional),
        ("a*(1-3)", RepeatRange::Bounded { lo: Some(1), hi: Some(3) }),
        ("a*(-3)", RepeatRange::Bounded { lo: None, hi: Some(3) }),
        ("a*(1-)", RepeatRange::Bounded { lo: Some(1), hi: None }),
    ];
    for (input, want) in cases {
        let s = chars(input);
        let mut err = fresh_err();
        let (e, end) = parse_rule_element(&s, 0, &mut err).expect(input);
        assert_eq!(end, s.len(), "{}", input);
        match e {
            RuleElement::Repeat { range, .. } => assert_eq!(range, want, "{}", input),
            other => panic!("{}: expected repeat, got {:?}", input, other),
        }
    }
}

#[test]
fn escape_lifts_reserved_character() {
    let s = chars("\\+");
    let mut err = fresh_err();
    let (e, end) = parse_rule_element(&s, 0, &mut err).expect("parse");
    assert_eq!(end, 2);
    match e {
        RuleElement::Text { ch, negated, .. } => {
            assert_eq!(ch, '+');
            assert!(!negated);
        }
        other => panic!("expected text atom, got {:?}", other),
    }
}

#[test]
fn failed_parse_reports_position_and_expectations() {
    let s = chars(",");
    let mut err = fresh_err();
    assert!(parse_rule_element(&s, 0, &mut err).is_none());
    assert_eq!(err.pos, 0);
    assert!(!err.expected.is_empty());
}
