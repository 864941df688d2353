//! Symbol rewriting: rules applied to words, and pipelines applied in
//! order.

use lsc::words::{Lexurgy, Rule, Symbol, Word};

fn word(s: &str) -> Word {
    Word {
        symbols: s.chars().map(|c| Symbol { symbol: c.to_string() }).collect(),
    }
}

fn syms(s: &str) -> Vec<Symbol> {
    s.chars().map(|c| Symbol { symbol: c.to_string() }).collect()
}

fn spelled(w: &Word) -> String {
    w.symbols.iter().map(|s| s.symbol.as_str()).collect()
}

#[test]
fn test_basic_rules() {
    let rule = Rule { name: "voice".to_string(), pattern: syms("p"), result: syms("b") };
    let mut w = word("papa");
    rule.apply(&mut w);
    assert_eq!(spelled(&w), "baba");
}

#[test]
fn rule_apply_replaces_leftmost_without_overlap() {
    let rule = Rule { name: "degeminate".to_string(), pattern: syms("aa"), result: syms("a") };
    let mut w = word("aaa");
    rule.apply(&mut w);
    // The match at offset zero wins; the overlapping one at offset one is
    // skipped, and the last symbol is copied unchanged.
    assert_eq!(spelled(&w), "aa");
}

#[test]
fn rule_apply_longer_result() {
    let rule = Rule { name: "break".to_string(), pattern: syms("i"), result: syms("je") };
    let mut w = word("ita");
    rule.apply(&mut w);
    assert_eq!(spelled(&w), "jeta");
}

#[test]
fn rule_apply_empty_pattern_changes_nothing() {
    let rule = Rule { name: "noop".to_string(), pattern: Vec::new(), result: syms("x") };
    let mut w = word("abc");
    rule.apply(&mut w);
    assert_eq!(spelled(&w), "abc");
}

#[test]
fn rule_apply_pattern_longer_than_word() {
    let rule = Rule { name: "long".to_string(), pattern: syms("abcd"), result: syms("x") };
    let mut w = word("ab");
    rule.apply(&mut w);
    assert_eq!(spelled(&w), "ab");
}

#[test]
fn pipeline_applies_rules_in_order() {
    let lex = Lexurgy {
        rules: vec![
            Rule { name: "first".to_string(), pattern: syms("a"), result: syms("b") },
            Rule { name: "second".to_string(), pattern: syms("b"), result: syms("c") },
        ],
    };
    let mut ws = vec![word("ab"), word("ba")];
    lex.apply(&mut ws);
    // Rule order matters: every `a` becomes `b` first, then every `b`
    // (including the fresh ones) becomes `c`.
    assert_eq!(spelled(&ws[0]), "cc");
    assert_eq!(spelled(&ws[1]), "cc");
}

#[test]
fn from_ast_starts_with_no_rules() {
    let lex = Lexurgy::from_ast(Vec::new());
    assert!(lex.rules.is_empty());
}

#[test]
fn multi_character_symbols_compare_whole() {
    let rule = Rule {
        name: "affricate".to_string(),
        pattern: vec![Symbol { symbol: "ts".to_string() }],
        result: vec![Symbol { symbol: "s".to_string() }],
    };
    let mut w = Word {
        symbols: vec![
            Symbol { symbol: "t".to_string() },
            Symbol { symbol: "ts".to_string() },
        ],
    };
    rule.apply(&mut w);
    assert_eq!(spelled(&w), "ts");
    assert_eq!(w.symbols.len(), 2);
}
