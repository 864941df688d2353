//! The feature-declaration grammar.

use lsc::ast::{Expected, FeatureDecl, ParseError};
use lsc::decls::parse_feature_decl;

fn chars(s: &str) -> Vec<char> {
    s.chars().collect()
}

fn fresh_err() -> ParseError {
    ParseError { pos: 0, expected: Vec::new() }
}

fn bool_name(d: &FeatureDecl) -> String {
    match d {
        FeatureDecl::Bool(f) => f.name.iter().collect(),
        other => panic!("expected boolean feature, got {:?}", other),
    }
}

#[test]
fn feature_list_declares_three_booleans_in_order() {
    let s = chars("Feature a, b, c");
    let mut err = fresh_err();
    let (decls, end) = parse_feature_decl(&s, 0, &mut err).expect("parse");
    assert_eq!(end, s.len());
    assert_eq!(decls.len(), 3);
    let names: Vec<String> = decls.iter().map(bool_name).collect();
    assert_eq!(names, vec!["a", "b", "c"]);
}

#[test]
fn feature_syllable_scope_and_plus_mark() {
    let s = chars("Feature (Syllable) +stress");
    let mut err = fresh_err();
    let (decls, end) = parse_feature_decl(&s, 0, &mut err).expect("parse");
    assert_eq!(end, s.len());
    assert_eq!(decls.len(), 1);
    match &decls[0] {
        FeatureDecl::Bool(f) => {
            assert!(f.syllable);
            assert!(f.plus);
            let name: String = f.name.iter().collect();
            assert_eq!(name, "stress");
        }
        other => panic!("expected boolean feature, got {:?}", other),
    }
}

#[test]
fn feature_without_name_fails_past_keyword() {
    let s = chars("Feature");
    let mut err = fresh_err();
    assert!(parse_feature_decl(&s, 0, &mut err).is_none());
    assert_eq!(err.pos, 7);
    assert!(err.expected.contains(&Expected::Name));
}

#[test]
fn feature_trailing_comma_left_unconsumed() {
    let s = chars("Feature a,");
    let mut err = fresh_err();
    let (decls, end) = parse_feature_decl(&s, 0, &mut err).expect("parse");
    assert_eq!(decls.len(), 1);
    assert_eq!(end, 9);
}

#[test]
fn lowercase_keyword_accepted() {
    let s = chars("feature nasal");
    let mut err = fresh_err();
    let (decls, end) = parse_feature_decl(&s, 0, &mut err).expect("parse");
    assert_eq!(end, s.len());
    assert_eq!(bool_name(&decls[0]), "nasal");
}

use lsc::ast::{
    BranchKind, EnvClause, Environment, Expression, RuleElement, RuleModifier, Statement,
    SymbolDecl, SyllableDecl,
};
use lsc::decls::{
    parse_file, parse_statement, parse_symbol_decl, parse_syllable_decl, parse_diacritic_decl,
    parse_class_decl, parse_element_decl, parse_standard_expression,
};

fn name_of(v: &[char]) -> String {
    v.iter().collect()
}

#[test]
fn valued_feature_axis_with_null_alias() {
    let s = chars("Feature height (*mid, low, high)");
    let mut err = fresh_err();
    let (decls, end) = parse_feature_decl(&s, 0, &mut err).expect("parse");
    assert_eq!(end, s.len());
    assert_eq!(decls.len(), 1);
    match &decls[0] {
        FeatureDecl::Valued(v) => {
            assert!(!v.syllable);
            assert_eq!(name_of(&v.name), "height");
            assert_eq!(name_of(&v.null_alias.as_ref().expect("alias").name), "mid");
            let vals: Vec<String> = v.values.iter().map(|x| name_of(&x.name)).collect();
            assert_eq!(vals, vec!["low", "high"]);
        }
        other => panic!("expected valued axis, got {:?}", other),
    }
}

#[test]
fn symbol_with_matrix_takes_the_matrix_path() {
    let s = chars("Symbol n [+nasal]");
    let mut err = fresh_err();
    let (d, end) = parse_symbol_decl(&s, 0, &mut err).expect("parse");
    assert_eq!(end, s.len());
    match d {
        SymbolDecl::WithMatrix { name, matrix, .. } => {
            assert_eq!(name.content, vec!['n']);
            assert_eq!(matrix.values.len(), 1);
        }
        other => panic!("expected matrix path, got {:?}", other),
    }
}

#[test]
fn symbol_list_takes_the_list_path() {
    let s = chars("Symbol a, b");
    let mut err = fresh_err();
    let (d, end) = parse_symbol_decl(&s, 0, &mut err).expect("parse");
    assert_eq!(end, s.len());
    match d {
        SymbolDecl::List { names, .. } => {
            assert_eq!(names.len(), 2);
            assert_eq!(names[0].content, vec!['a']);
            assert_eq!(names[1].content, vec!['b']);
        }
        other => panic!("expected list path, got {:?}", other),
    }
}

#[test]
fn syllable_explicit_directive() {
    let s = chars("Syllable: Explicit");
    let mut err = fresh_err();
    let (d, end) = parse_syllable_decl(&s, 0, &mut err).expect("parse");
    assert_eq!(end, s.len());
    assert!(matches!(d, SyllableDecl::Explicit { .. }));
}

#[test]
fn syllable_structured_pattern() {
    let s = chars("Syllable:\n  a :: b :: c");
    let mut err = fresh_err();
    let (d, end) = parse_syllable_decl(&s, 0, &mut err).expect("parse");
    assert_eq!(end, s.len());
    match d {
        SyllableDecl::Patterns { exprs, .. } => {
            assert_eq!(exprs.len(), 1);
            match &exprs[0].pattern {
                lsc::ast::SyllablePattern::Structured { reluctant_onset, parts, .. } => {
                    assert!(reluctant_onset.is_none());
                    assert_eq!(parts.len(), 3);
                }
                other => panic!("expected structured pattern, got {:?}", other),
            }
        }
        other => panic!("expected patterns, got {:?}", other),
    }
}

#[test]
fn standard_expression_with_condition() {
    let s = chars("x => y / a_b");
    let mut err = fresh_err();
    let (e, end) = parse_standard_expression(&s, 0, &mut err).expect("parse");
    assert_eq!(end, s.len());
    match &e.from {
        RuleElement::Text { ch, .. } => assert_eq!(*ch, 'x'),
        other => panic!("expected text atom, got {:?}", other),
    }
    match &e.to {
        RuleElement::Text { ch, .. } => assert_eq!(*ch, 'y'),
        other => panic!("expected text atom, got {:?}", other),
    }
    let env = e.environment.as_ref().expect("environment");
    assert!(env.exclusion.is_none());
    match env.condition.as_ref().expect("condition") {
        EnvClause::Single(en) => match &**en {
            Environment::Anchored { before, after, .. } => {
                assert!(matches!(before, Some(RuleElement::Text { ch: 'a', .. })));
                assert!(matches!(after, Some(RuleElement::Text { ch: 'b', .. })));
            }
            other => panic!("expected anchored environment, got {:?}", other),
        },
        other => panic!("expected single environment, got {:?}", other),
    }
}

#[test]
fn standard_expression_with_exclusion_list() {
    let s = chars("x => y // {a_b, c_d}");
    let mut err = fresh_err();
    let (e, end) = parse_standard_expression(&s, 0, &mut err).expect("parse");
    assert_eq!(end, s.len());
    let env = e.environment.as_ref().expect("environment");
    assert!(env.condition.is_none());
    match env.exclusion.as_ref().expect("exclusion") {
        EnvClause::Choice { envs, .. } => assert_eq!(envs.len(), 2),
        other => panic!("expected environment list, got {:?}", other),
    }
}

#[test]
fn class_and_element_declarations() {
    let s = chars("Class V {a, e, @W}");
    let mut err = fresh_err();
    let (d, end) = parse_class_decl(&s, 0, &mut err).expect("parse");
    assert_eq!(end, s.len());
    assert_eq!(name_of(&d.name), "V");
    assert_eq!(d.items.len(), 3);
    assert!(matches!(&d.items[2], lsc::ast::ClassItem::Ref { .. }));

    let s2 = chars("Element stop {p, t, k}");
    let mut err2 = fresh_err();
    let (d2, end2) = parse_element_decl(&s2, 0, &mut err2).expect("parse");
    assert_eq!(end2, s2.len());
    assert_eq!(name_of(&d2.name), "stop");
}

#[test]
fn diacritic_modifiers_before_and_after_matrix() {
    let s = chars("Diacritic h (Before) [+stop] (Floating)");
    let mut err = fresh_err();
    let (d, end) = parse_diacritic_decl(&s, 0, &mut err).expect("parse");
    assert_eq!(end, s.len());
    assert_eq!(d.text.content, vec!['h']);
    assert_eq!(d.pre_modifiers.len(), 1);
    assert_eq!(d.post_modifiers.len(), 1);
    assert!(matches!(d.pre_modifiers[0], lsc::ast::DiacriticModifier::Before { .. }));
    assert!(matches!(d.post_modifiers[0], lsc::ast::DiacriticModifier::Floating { .. }));
}

#[test]
fn it_works() {
    let s = chars("\nFeature soft\n");
    let v = parse_file(&s).expect("parse");
    assert_eq!(v.len(), 1);
    match &v[0] {
        Statement::Feature { decl: FeatureDecl::Bool(f), .. } => {
            assert_eq!(name_of(&f.name), "soft");
        }
        other => panic!("expected a feature statement, got {:?}", other),
    }
}

#[test]
fn change_rule_with_modifier_and_branch() {
    // Newlines separate tokens exactly as spaces do, so a branch keyword
    // must follow an expression that cannot absorb it as pattern text;
    // `Unchanged` ends crisply where `/ _i` would swallow `Then` as a
    // trailing sequence.
    let s = chars("palatalize-1 Ltr:\n Unchanged\n Then:\n Off");
    let mut err = fresh_err();
    let (sts, end) = parse_statement(&s, 0, &mut err).expect("parse");
    assert_eq!(end, s.len());
    assert_eq!(sts.len(), 1);
    match &sts[0] {
        Statement::Rule { rule, .. } => {
            let segs: Vec<String> = rule.name.segments.iter().map(|x| name_of(x)).collect();
            assert_eq!(segs, vec!["palatalize", "1"]);
            assert_eq!(rule.modifiers.len(), 1);
            assert!(matches!(rule.modifiers[0], RuleModifier::Ltr { .. }));
            assert_eq!(rule.block.branches.len(), 1);
            assert_eq!(rule.block.branches[0].kind, BranchKind::AllMatching);
            match &rule.block.first {
                lsc::ast::BlockElement::Expressions { exprs, .. } => {
                    assert_eq!(exprs.len(), 1);
                    assert!(matches!(exprs[0], Expression::Unchanged { .. }));
                }
                other => panic!("expected expressions, got {:?}", other),
            }
            match &rule.block.branches[0].elem {
                lsc::ast::BlockElement::Expressions { exprs, .. } => {
                    assert_eq!(exprs.len(), 1);
                    assert!(matches!(exprs[0], Expression::Off { .. }));
                }
                other => panic!("expected expressions, got {:?}", other),
            }
        }
        other => panic!("expected a change rule, got {:?}", other),
    }
}

#[test]
fn deromanizer_statement() {
    let s = chars("Deromanizer Literal:\n a => b");
    let v = parse_file(&s).expect("parse");
    assert_eq!(v.len(), 1);
    assert!(matches!(&v[0], Statement::Deromanizer { .. }));
}

#[test]
fn file_of_mixed_statements_in_order() {
    let s = chars("Feature a, b\nSymbol n [+a]\nx => y");
    let v = parse_file(&s).expect("parse");
    assert_eq!(v.len(), 4);
    assert!(matches!(&v[0], Statement::Feature { .. }));
    assert!(matches!(&v[1], Statement::Feature { .. }));
    assert!(matches!(&v[2], Statement::Symbol { .. }));
    assert!(matches!(&v[3], Statement::Expression { .. }));
}

#[test]
fn malformed_file_reports_an_error() {
    let s = chars("Feature ,");
    assert!(parse_file(&s).is_err());
}
