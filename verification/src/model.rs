//! Mathematical model of the syntax tree.
//!
//! Each executable node type of `ast` has a model type here, with `Seq` in
//! place of `Vec` and `int` offsets in place of `usize`, and a view function
//! mapping the executable node to its model. The grammar itself is defined
//! over these model types.

use vstd::prelude::*;
use crate::ast;

verus! {

broadcast use vstd::std_specs::vec::group_vec_axioms, vstd::seq::axiom_seq_index_decreases;

pub struct Span {
    pub lo: int,
    pub hi: int,
}

pub struct TextToken {
    pub content: Seq<char>,
    pub negated: bool,
    pub span: Span,
}

pub enum MatrixValue {
    Feature { sign: ast::Sign, name: Seq<char>, span: Span },
    Negated { sign: ast::Sign, name: Seq<char>, span: Span },
    Absent { name: Seq<char>, span: Span },
    Variable { name: Seq<char>, span: Span },
}

pub struct Matrix {
    pub values: Seq<MatrixValue>,
    pub span: Span,
}

pub enum RuleElement {
    Group { inner: Box<RuleElement>, span: Span },
    List { items: Seq<RuleElement>, span: Span },
    Sequence { items: Seq<RuleElement>, span: Span },
    Interfix { items: Seq<RuleElement>, ops: Seq<ast::InterfixOp>, span: Span },
    Negated { inner: Box<RuleElement>, span: Span },
    Capture { inner: Box<RuleElement>, index: u64, span: Span },
    Repeat { inner: Box<RuleElement>, range: ast::RepeatRange, span: Span },
    AnySyllable { span: Span },
    ElementRef { name: Seq<char>, span: Span },
    CaptureRef { index: u64, inexact: bool, syl_boundary: bool, span: Span },
    Matrix { matrix: Matrix, span: Span },
    Empty { span: Span },
    SylBoundary { span: Span },
    WordBoundary { span: Span },
    BetweenWords { span: Span },
    Text { ch: char, negated: bool, span: Span },
    WithEnv { inner: Box<RuleElement>, env: CompoundEnvironment, span: Span },
}

pub enum Environment {
    Anchored { before: Option<RuleElement>, after: Option<RuleElement>, span: Span },
    Bare { elem: RuleElement, span: Span },
}

pub enum EnvClause {
    Single(Box<Environment>),
    Choice { envs: Seq<Environment>, span: Span },
}

pub struct CompoundEnvironment {
    pub condition: Option<EnvClause>,
    pub exclusion: Option<EnvClause>,
    pub span: Span,
}

pub struct StandardExpression {
    pub from: RuleElement,
    pub to: RuleElement,
    pub environment: Option<CompoundEnvironment>,
    pub span: Span,
}

pub struct RuleName {
    pub segments: Seq<Seq<char>>,
    pub span: Span,
}

pub enum Expression {
    Standard(StandardExpression),
    Unchanged { span: Span },
    Off { span: Span },
    BlockRef { name: RuleName, span: Span },
}

pub enum RuleModifier {
    FilterRef { name: Seq<char>, span: Span },
    FilterMatrix { matrix: Matrix, span: Span },
    Ltr { span: Span },
    Rtl { span: Span },
    Propagate { span: Span },
    Defer { span: Span },
    Cleanup { span: Span },
    Named { name: Seq<char>, span: Span },
}

pub enum BlockElement {
    Expressions { exprs: Seq<Expression>, span: Span },
    Nested { block: Box<Block>, span: Span },
}

pub struct BlockBranch {
    pub kind: ast::BranchKind,
    pub modifiers: Seq<RuleModifier>,
    pub elem: BlockElement,
    pub span: Span,
}

pub struct Block {
    pub first: BlockElement,
    pub branches: Seq<BlockBranch>,
    pub span: Span,
}

pub struct PlusFeature {
    pub syllable: bool,
    pub plus: bool,
    pub name: Seq<char>,
    pub span: Span,
}

pub struct FeatureValue {
    pub name: Seq<char>,
    pub span: Span,
}

pub struct ValuedFeature {
    pub syllable: bool,
    pub name: Seq<char>,
    pub null_alias: Option<FeatureValue>,
    pub values: Seq<FeatureValue>,
    pub span: Span,
}

pub enum FeatureDecl {
    Bool(PlusFeature),
    Valued(ValuedFeature),
}

pub enum DiacriticModifier {
    Before { span: Span },
    First { span: Span },
    Floating { span: Span },
}

pub struct DiacriticDecl {
    pub text: TextToken,
    pub pre_modifiers: Seq<DiacriticModifier>,
    pub matrix: Matrix,
    pub post_modifiers: Seq<DiacriticModifier>,
    pub span: Span,
}

pub enum SymbolDecl {
    List { names: Seq<TextToken>, span: Span },
    WithMatrix { name: TextToken, matrix: Matrix, span: Span },
}

pub enum ClassItem {
    Ref { name: Seq<char>, span: Span },
    Text(TextToken),
}

pub struct ClassDecl {
    pub name: Seq<char>,
    pub items: Seq<ClassItem>,
    pub span: Span,
}

pub struct ElementDecl {
    pub name: Seq<char>,
    pub element: RuleElement,
    pub span: Span,
}

pub enum SyllablePattern {
    Structured { reluctant_onset: Option<RuleElement>, parts: Seq<RuleElement>, span: Span },
    Plain(RuleElement),
}

pub struct SyllableExpression {
    pub pattern: SyllablePattern,
    pub matrix: Option<Matrix>,
    pub environment: Option<CompoundEnvironment>,
    pub span: Span,
}

pub enum SyllableDecl {
    Explicit { span: Span },
    Clear { span: Span },
    Patterns { exprs: Seq<SyllableExpression>, span: Span },
}

pub struct ChangeRule {
    pub name: RuleName,
    pub modifiers: Seq<RuleModifier>,
    pub block: Block,
    pub span: Span,
}

pub enum Statement {
    Feature { decl: FeatureDecl, span: Span },
    Diacritic { decl: DiacriticDecl, span: Span },
    Symbol { decl: SymbolDecl, span: Span },
    Class { decl: ClassDecl, span: Span },
    Element { decl: ElementDecl, span: Span },
    Syllable { decl: SyllableDecl, span: Span },
    Deromanizer { block: Block, span: Span },
    InterRomanizer { name: RuleName, block: Block, span: Span },
    Romanizer { block: Block, span: Span },
    Rule { rule: ChangeRule, span: Span },
    Expression { expr: StandardExpression, span: Span },
}

// ---------------------------------------------------------------------------
// Views: from executable nodes to their models.
// ---------------------------------------------------------------------------

pub open spec fn span_view(s: ast::Span) -> Span {
    Span { lo: s.lo as int, hi: s.hi as int }
}

pub open spec fn text_token_view(t: ast::TextToken) -> TextToken {
    TextToken { content: t.content@, negated: t.negated, span: span_view(t.span) }
}

pub open spec fn mval_view(v: ast::MatrixValue) -> MatrixValue {
    match v {
        ast::MatrixValue::Feature { sign, name, span } => MatrixValue::Feature {
            sign,
            name: name@,
            span: span_view(span),
        },
        ast::MatrixValue::Negated { sign, name, span } => MatrixValue::Negated {
            sign,
            name: name@,
            span: span_view(span),
        },
        ast::MatrixValue::Absent { name, span } => MatrixValue::Absent {
            name: name@,
            span: span_view(span),
        },
        ast::MatrixValue::Variable { name, span } => MatrixValue::Variable {
            name: name@,
            span: span_view(span),
        },
    }
}

pub open spec fn mvals_view(v: Seq<ast::MatrixValue>) -> Seq<MatrixValue>
    decreases v,
{
    if v.len() == 0 {
        Seq::empty()
    } else {
        seq![mval_view(v[0])] + mvals_view(v.subrange(1, v.len() as int))
    }
}

pub open spec fn matrix_view(m: ast::Matrix) -> Matrix {
    Matrix { values: mvals_view(m.values@), span: span_view(m.span) }
}

pub open spec fn elem_view(e: ast::RuleElement) -> RuleElement
    decreases e, 0int,
{
    match e {
        ast::RuleElement::Group { inner, span } => RuleElement::Group {
            inner: Box::new(elem_view(*inner)),
            span: span_view(span),
        },
        ast::RuleElement::List { items, span } => RuleElement::List {
            items: elems_view(items@),
            span: span_view(span),
        },
        ast::RuleElement::Sequence { items, span } => RuleElement::Sequence {
            items: elems_view(items@),
            span: span_view(span),
        },
        ast::RuleElement::Interfix { items, ops, span } => RuleElement::Interfix {
            items: elems_view(items@),
            ops: ops@,
            span: span_view(span),
        },
        ast::RuleElement::Negated { inner, span } => RuleElement::Negated {
            inner: Box::new(elem_view(*inner)),
            span: span_view(span),
        },
        ast::RuleElement::Capture { inner, index, span } => RuleElement::Capture {
            inner: Box::new(elem_view(*inner)),
            index,
            span: span_view(span),
        },
        ast::RuleElement::Repeat { inner, range, span } => RuleElement::Repeat {
            inner: Box::new(elem_view(*inner)),
            range,
            span: span_view(span),
        },
        ast::RuleElement::AnySyllable { span } => RuleElement::AnySyllable { span: span_view(span) },
        ast::RuleElement::ElementRef { name, span } => RuleElement::ElementRef {
            name: name@,
            span: span_view(span),
        },
        ast::RuleElement::CaptureRef { index, inexact, syl_boundary, span } => RuleElement::CaptureRef {
            index,
            inexact,
            syl_boundary,
            span: span_view(span),
        },
        ast::RuleElement::Matrix { matrix, span } => RuleElement::Matrix {
            matrix: matrix_view(matrix),
            span: span_view(span),
        },
        ast::RuleElement::Empty { span } => RuleElement::Empty { span: span_view(span) },
        ast::RuleElement::SylBoundary { span } => RuleElement::SylBoundary { span: span_view(span) },
        ast::RuleElement::WordBoundary { span } => RuleElement::WordBoundary { span: span_view(span) },
        ast::RuleElement::BetweenWords { span } => RuleElement::BetweenWords { span: span_view(span) },
        ast::RuleElement::Text { ch, negated, span } => RuleElement::Text {
            ch,
            negated,
            span: span_view(span),
        },
        ast::RuleElement::WithEnv { inner, env, span } => RuleElement::WithEnv {
            inner: Box::new(elem_view(*inner)),
            env: cenv_view(env),
            span: span_view(span),
        },
    }
}

pub open spec fn elems_view(v: Seq<ast::RuleElement>) -> Seq<RuleElement>
    decreases v, 1int,
{
    if v.len() == 0 {
        Seq::empty()
    } else {
        seq![elem_view(v[0])] + elems_view(v.subrange(1, v.len() as int))
    }
}

pub open spec fn opt_elem_view(o: Option<ast::RuleElement>) -> Option<RuleElement>
    decreases o, 1int,
{
    match o {
        Some(e) => Some(elem_view(e)),
        None => None,
    }
}

pub open spec fn env_view(e: ast::Environment) -> Environment
    decreases e, 2int,
{
    match e {
        ast::Environment::Anchored { before, after, span } => Environment::Anchored {
            before: opt_elem_view(before),
            after: opt_elem_view(after),
            span: span_view(span),
        },
        ast::Environment::Bare { elem, span } => Environment::Bare {
            elem: elem_view(elem),
            span: span_view(span),
        },
    }
}

pub open spec fn envs_view(v: Seq<ast::Environment>) -> Seq<Environment>
    decreases v, 3int,
{
    if v.len() == 0 {
        Seq::empty()
    } else {
        seq![env_view(v[0])] + envs_view(v.subrange(1, v.len() as int))
    }
}

pub open spec fn clause_view(c: ast::EnvClause) -> EnvClause
    decreases c, 4int,
{
    match c {
        ast::EnvClause::Single(e) => EnvClause::Single(Box::new(env_view(*e))),
        ast::EnvClause::Choice { envs, span } => EnvClause::Choice {
            envs: envs_view(envs@),
            span: span_view(span),
        },
    }
}

pub open spec fn opt_clause_view(o: Option<ast::EnvClause>) -> Option<EnvClause>
    decreases o, 5int,
{
    match o {
        Some(c) => Some(clause_view(c)),
        None => None,
    }
}

pub open spec fn cenv_view(c: ast::CompoundEnvironment) -> CompoundEnvironment
    decreases c, 6int,
{
    CompoundEnvironment {
        condition: opt_clause_view(c.condition),
        exclusion: opt_clause_view(c.exclusion),
        span: span_view(c.span),
    }
}

pub open spec fn opt_cenv_view(o: Option<ast::CompoundEnvironment>) -> Option<CompoundEnvironment> {
    match o {
        Some(c) => Some(cenv_view(c)),
        None => None,
    }
}

pub open spec fn stdexpr_view(e: ast::StandardExpression) -> StandardExpression {
    StandardExpression {
        from: elem_view(e.from),
        to: elem_view(e.to),
        environment: opt_cenv_view(e.environment),
        span: span_view(e.span),
    }
}

pub open spec fn segments_view(v: Seq<Vec<char>>) -> Seq<Seq<char>>
    decreases v,
{
    if v.len() == 0 {
        Seq::empty()
    } else {
        seq![v[0]@] + segments_view(v.subrange(1, v.len() as int))
    }
}

pub open spec fn rulename_view(n: ast::RuleName) -> RuleName {
    RuleName { segments: segments_view(n.segments@), span: span_view(n.span) }
}

pub open spec fn expr_view(e: ast::Expression) -> Expression {
    match e {
        ast::Expression::Standard(s) => Expression::Standard(stdexpr_view(s)),
        ast::Expression::Unchanged { span } => Expression::Unchanged { span: span_view(span) },
        ast::Expression::Off { span } => Expression::Off { span: span_view(span) },
        ast::Expression::BlockRef { name, span } => Expression::BlockRef {
            name: rulename_view(name),
            span: span_view(span),
        },
    }
}

pub open spec fn exprs_view(v: Seq<ast::Expression>) -> Seq<Expression>
    decreases v,
{
    if v.len() == 0 {
        Seq::empty()
    } else {
        seq![expr_view(v[0])] + exprs_view(v.subrange(1, v.len() as int))
    }
}

pub open spec fn modifier_view(m: ast::RuleModifier) -> RuleModifier {
    match m {
        ast::RuleModifier::FilterRef { name, span } => RuleModifier::FilterRef {
            name: name@,
            span: span_view(span),
        },
        ast::RuleModifier::FilterMatrix { matrix, span } => RuleModifier::FilterMatrix {
            matrix: matrix_view(matrix),
            span: span_view(span),
        },
        ast::RuleModifier::Ltr { span } => RuleModifier::Ltr { span: span_view(span) },
        ast::RuleModifier::Rtl { span } => RuleModifier::Rtl { span: span_view(span) },
        ast::RuleModifier::Propagate { span } => RuleModifier::Propagate { span: span_view(span) },
        ast::RuleModifier::Defer { span } => RuleModifier::Defer { span: span_view(span) },
        ast::RuleModifier::Cleanup { span } => RuleModifier::Cleanup { span: span_view(span) },
        ast::RuleModifier::Named { name, span } => RuleModifier::Named {
            name: name@,
            span: span_view(span),
        },
    }
}

pub open spec fn modifiers_view(v: Seq<ast::RuleModifier>) -> Seq<RuleModifier>
    decreases v,
{
    if v.len() == 0 {
        Seq::empty()
    } else {
        seq![modifier_view(v[0])] + modifiers_view(v.subrange(1, v.len() as int))
    }
}

pub open spec fn block_elem_view(b: ast::BlockElement) -> BlockElement
    decreases b, 0int,
{
    match b {
        ast::BlockElement::Expressions { exprs, span } => BlockElement::Expressions {
            exprs: exprs_view(exprs@),
            span: span_view(span),
        },
        ast::BlockElement::Nested { block, span } => BlockElement::Nested {
            block: Box::new(block_view(*block)),
            span: span_view(span),
        },
    }
}

pub open spec fn branch_view(b: ast::BlockBranch) -> BlockBranch
    decreases b, 1int,
{
    BlockBranch {
        kind: b.kind,
        modifiers: modifiers_view(b.modifiers@),
        elem: block_elem_view(b.elem),
        span: span_view(b.span),
    }
}

pub open spec fn branches_view(v: Seq<ast::BlockBranch>) -> Seq<BlockBranch>
    decreases v, 2int,
{
    if v.len() == 0 {
        Seq::empty()
    } else {
        seq![branch_view(v[0])] + branches_view(v.subrange(1, v.len() as int))
    }
}

pub open spec fn block_view(b: ast::Block) -> Block
    decreases b, 3int,
{
    Block {
        first: block_elem_view(b.first),
        branches: branches_view(b.branches@),
        span: span_view(b.span),
    }
}

pub open spec fn plus_feature_view(f: ast::PlusFeature) -> PlusFeature {
    PlusFeature { syllable: f.syllable, plus: f.plus, name: f.name@, span: span_view(f.span) }
}

pub open spec fn fvalue_view(f: ast::FeatureValue) -> FeatureValue {
    FeatureValue { name: f.name@, span: span_view(f.span) }
}

pub open spec fn fvalues_view(v: Seq<ast::FeatureValue>) -> Seq<FeatureValue>
    decreases v,
{
    if v.len() == 0 {
        Seq::empty()
    } else {
        seq![fvalue_view(v[0])] + fvalues_view(v.subrange(1, v.len() as int))
    }
}

pub open spec fn opt_fvalue_view(o: Option<ast::FeatureValue>) -> Option<FeatureValue> {
    match o {
        Some(f) => Some(fvalue_view(f)),
        None => None,
    }
}

pub open spec fn feature_decl_view(d: ast::FeatureDecl) -> FeatureDecl {
    match d {
        ast::FeatureDecl::Bool(f) => FeatureDecl::Bool(plus_feature_view(f)),
        ast::FeatureDecl::Valued(v) => FeatureDecl::Valued(
            ValuedFeature {
                syllable: v.syllable,
                name: v.name@,
                null_alias: opt_fvalue_view(v.null_alias),
                values: fvalues_view(v.values@),
                span: span_view(v.span),
            },
        ),
    }
}

pub open spec fn dmod_view(m: ast::DiacriticModifier) -> DiacriticModifier {
    match m {
        ast::DiacriticModifier::Before { span } => DiacriticModifier::Before { span: span_view(span) },
        ast::DiacriticModifier::First { span } => DiacriticModifier::First { span: span_view(span) },
        ast::DiacriticModifier::Floating { span } => DiacriticModifier::Floating {
            span: span_view(span),
        },
    }
}

pub open spec fn dmods_view(v: Seq<ast::DiacriticModifier>) -> Seq<DiacriticModifier>
    decreases v,
{
    if v.len() == 0 {
        Seq::empty()
    } else {
        seq![dmod_view(v[0])] + dmods_view(v.subrange(1, v.len() as int))
    }
}

pub open spec fn texts_view(v: Seq<ast::TextToken>) -> Seq<TextToken>
    decreases v,
{
    if v.len() == 0 {
        Seq::empty()
    } else {
        seq![text_token_view(v[0])] + texts_view(v.subrange(1, v.len() as int))
    }
}

pub open spec fn symbol_decl_view(d: ast::SymbolDecl) -> SymbolDecl {
    match d {
        ast::SymbolDecl::List { names, span } => SymbolDecl::List {
            names: texts_view(names@),
            span: span_view(span),
        },
        ast::SymbolDecl::WithMatrix { name, matrix, span } => SymbolDecl::WithMatrix {
            name: text_token_view(name),
            matrix: matrix_view(matrix),
            span: span_view(span),
        },
    }
}

pub open spec fn class_item_view(c: ast::ClassItem) -> ClassItem {
    match c {
        ast::ClassItem::Ref { name, span } => ClassItem::Ref { name: name@, span: span_view(span) },
        ast::ClassItem::Text(t) => ClassItem::Text(text_token_view(t)),
    }
}

pub open spec fn class_items_view(v: Seq<ast::ClassItem>) -> Seq<ClassItem>
    decreases v,
{
    if v.len() == 0 {
        Seq::empty()
    } else {
        seq![class_item_view(v[0])] + class_items_view(v.subrange(1, v.len() as int))
    }
}

pub open spec fn syl_pattern_view(p: ast::SyllablePattern) -> SyllablePattern {
    match p {
        ast::SyllablePattern::Structured { reluctant_onset, parts, span } => SyllablePattern::Structured {
            reluctant_onset: opt_elem_view(reluctant_onset),
            parts: elems_view(parts@),
            span: span_view(span),
        },
        ast::SyllablePattern::Plain(e) => SyllablePattern::Plain(elem_view(e)),
    }
}

pub open spec fn opt_matrix_view(o: Option<ast::Matrix>) -> Option<Matrix> {
    match o {
        Some(m) => Some(matrix_view(m)),
        None => None,
    }
}

pub open spec fn syl_expr_view(e: ast::SyllableExpression) -> SyllableExpression {
    SyllableExpression {
        pattern: syl_pattern_view(e.pattern),
        matrix: opt_matrix_view(e.matrix),
        environment: opt_cenv_view(e.environment),
        span: span_view(e.span),
    }
}

pub open spec fn syl_exprs_view(v: Seq<ast::SyllableExpression>) -> Seq<SyllableExpression>
    decreases v,
{
    if v.len() == 0 {
        Seq::empty()
    } else {
        seq![syl_expr_view(v[0])] + syl_exprs_view(v.subrange(1, v.len() as int))
    }
}

pub open spec fn syllable_decl_view(d: ast::SyllableDecl) -> SyllableDecl {
    match d {
        ast::SyllableDecl::Explicit { span } => SyllableDecl::Explicit { span: span_view(span) },
        ast::SyllableDecl::Clear { span } => SyllableDecl::Clear { span: span_view(span) },
        ast::SyllableDecl::Patterns { exprs, span } => SyllableDecl::Patterns {
            exprs: syl_exprs_view(exprs@),
            span: span_view(span),
        },
    }
}

pub open spec fn change_rule_view(r: ast::ChangeRule) -> ChangeRule {
    ChangeRule {
        name: rulename_view(r.name),
        modifiers: modifiers_view(r.modifiers@),
        block: block_view(r.block),
        span: span_view(r.span),
    }
}

pub open spec fn stmt_view(s: ast::Statement) -> Statement {
    match s {
        ast::Statement::Feature { decl, span } => Statement::Feature {
            decl: feature_decl_view(decl),
            span: span_view(span),
        },
        ast::Statement::Diacritic { decl, span } => Statement::Diacritic {
            decl: DiacriticDecl {
                text: text_token_view(decl.text),
                pre_modifiers: dmods_view(decl.pre_modifiers@),
                matrix: matrix_view(decl.matrix),
                post_modifiers: dmods_view(decl.post_modifiers@),
                span: span_view(decl.span),
            },
            span: span_view(span),
        },
        ast::Statement::Symbol { decl, span } => Statement::Symbol {
            decl: symbol_decl_view(decl),
            span: span_view(span),
        },
        ast::Statement::Class { decl, span } => Statement::Class {
            decl: ClassDecl {
                name: decl.name@,
                items: class_items_view(decl.items@),
                span: span_view(decl.span),
            },
            span: span_view(span),
        },
        ast::Statement::Element { decl, span } => Statement::Element {
            decl: ElementDecl {
                name: decl.name@,
                element: elem_view(decl.element),
                span: span_view(decl.span),
            },
            span: span_view(span),
        },
        ast::Statement::Syllable { decl, span } => Statement::Syllable {
            decl: syllable_decl_view(decl),
            span: span_view(span),
        },
        ast::Statement::Deromanizer { block, span } => Statement::Deromanizer {
            block: block_view(block),
            span: span_view(span),
        },
        ast::Statement::InterRomanizer { name, block, span } => Statement::InterRomanizer {
            name: rulename_view(name),
            block: block_view(block),
            span: span_view(span),
        },
        ast::Statement::Romanizer { block, span } => Statement::Romanizer {
            block: block_view(block),
            span: span_view(span),
        },
        ast::Statement::Rule { rule, span } => Statement::Rule {
            rule: change_rule_view(rule),
            span: span_view(span),
        },
        ast::Statement::Expression { expr, span } => Statement::Expression {
            expr: stdexpr_view(expr),
            span: span_view(span),
        },
    }
}

pub open spec fn stmts_view(v: Seq<ast::Statement>) -> Seq<Statement>
    decreases v,
{
    if v.len() == 0 {
        Seq::empty()
    } else {
        seq![stmt_view(v[0])] + stmts_view(v.subrange(1, v.len() as int))
    }
}

/// The view of a literal text atom, spelled out for the parsers.
pub proof fn lemma_elem_view_text(ch: char, negated: bool, span: ast::Span)
    ensures
        elem_view(ast::RuleElement::Text { ch, negated, span }) == (RuleElement::Text {
            ch,
            negated,
            span: span_view(span),
        }),
{
}

} // verus!
