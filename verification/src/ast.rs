//! Syntax tree for the LSC rule language.
//!
//! Every node carries a `Span`: the half-open range of character offsets in
//! the source text that the node was parsed from.

use vstd::prelude::*;

verus! {

/// Half-open range `[lo, hi)` of character offsets into the source text.
#[derive(Clone, Copy, Debug, PartialEq, Eq)]
pub struct Span {
    pub lo: usize,
    pub hi: usize,
}

/// A run of literal text (declaration contexts), with escapes resolved,
/// and an optional trailing `!` negation mark.
#[derive(Debug, PartialEq, Eq)]
pub struct TextToken {
    pub content: Vec<char>,
    pub negated: bool,
    pub span: Span,
}

/// Operator joining the operands of an `Interfix` chain.
#[derive(Clone, Copy, Debug, PartialEq, Eq)]
pub enum InterfixOp {
    /// `&`: both patterns must match.
    Intersect,
    /// `&!`: the left pattern must match, the right must not.
    IntersectNot,
    /// `>`: the matched text is transformed by the right pattern.
    Transform,
}

/// How often a `Repeat` element matches its inner pattern.
#[derive(Clone, Copy, Debug, PartialEq, Eq)]
pub enum RepeatRange {
    /// `*N`
    Exactly(u64),
    /// `+`
    AtLeastOne,
    /// `*`
    ZeroOrMore,
    /// `?`
    Optional,
    /// `*(lo-hi)`, either bound may be absent (unbounded on that side).
    Bounded { lo: Option<u64>, hi: Option<u64> },
}

/// Sign prefix of a feature value in a matrix.
#[derive(Clone, Copy, Debug, PartialEq, Eq)]
pub enum Sign {
    Plus,
    Minus,
    Unsigned,
}

/// One slot of a feature matrix. The `Negated`, `Absent` and `Variable`
/// forms appear only in pattern-matching ("fancy") matrices.
#[derive(Debug, PartialEq, Eq)]
pub enum MatrixValue {
    /// `(+|-)?name`
    Feature { sign: Sign, name: Vec<char>, span: Span },
    /// `!(+|-)?name`
    Negated { sign: Sign, name: Vec<char>, span: Span },
    /// `*name`: the feature must be unset.
    Absent { name: Vec<char>, span: Span },
    /// `$name`: bind the matched value of the feature to a variable.
    Variable { name: Vec<char>, span: Span },
}

/// `[ ... ]`: an ordered bundle of feature values.
#[derive(Debug, PartialEq, Eq)]
pub struct Matrix {
    pub values: Vec<MatrixValue>,
    pub span: Span,
}

/// A pattern that matches a span of phonemes or symbols.
#[derive(Debug, PartialEq, Eq)]
pub enum RuleElement {
    /// `( e )`
    Group { inner: Box<RuleElement>, span: Span },
    /// `{ e, e, ... }`: ordered alternation, first match wins.
    List { items: Vec<RuleElement>, span: Span },
    /// Free elements juxtaposed, matched in order.
    Sequence { items: Vec<RuleElement>, span: Span },
    /// A left-associative chain `e op e op e` with no intervening whitespace;
    /// `ops.len()` is one less than `items.len()`.
    Interfix { items: Vec<RuleElement>, ops: Vec<InterfixOp>, span: Span },
    /// `!e`
    Negated { inner: Box<RuleElement>, span: Span },
    /// `e$N`: bind the match of `inner` to capture group `index`.
    Capture { inner: Box<RuleElement>, index: u64, span: Span },
    /// `e+`, `e*`, `e?`, `e*N`, `e*(lo-hi)`
    Repeat { inner: Box<RuleElement>, range: RepeatRange, span: Span },
    /// `<Syl>`
    AnySyllable { span: Span },
    /// `@name`
    ElementRef { name: Vec<char>, span: Span },
    /// `~?$.?N`: reference to an earlier capture group.
    CaptureRef { index: u64, inexact: bool, syl_boundary: bool, span: Span },
    /// A fancy feature matrix used as a pattern.
    Matrix { matrix: Matrix, span: Span },
    /// `*`: matches zero width.
    Empty { span: Span },
    /// `.`
    SylBoundary { span: Span },
    /// `$`
    WordBoundary { span: Span },
    /// `$$`
    BetweenWords { span: Span },
    /// A single literal character (possibly written with an escape),
    /// with an optional trailing `!` negation mark.
    Text { ch: char, negated: bool, span: Span },
    /// An element restricted by a compound environment.
    WithEnv { inner: Box<RuleElement>, env: CompoundEnvironment, span: Span },
}

/// Left/right context around a rule's focus position.
#[derive(Debug, PartialEq, Eq)]
pub enum Environment {
    /// `before? _ after?`: the `_` anchor marks the focus.
    Anchored { before: Option<RuleElement>, after: Option<RuleElement>, span: Span },
    /// A bare element with no anchor; the focus position is the caller's.
    Bare { elem: RuleElement, span: Span },
}

/// One side of a compound environment: a single environment or a braced
/// disjunction of environments.
#[derive(Debug, PartialEq, Eq)]
pub enum EnvClause {
    Single(Box<Environment>),
    /// `{ env, env, ... }`: any one of the listed environments suffices.
    Choice { envs: Vec<Environment>, span: Span },
}

/// `/ condition // exclusion`: the rule applies only where the condition
/// holds and the exclusion does not. At least one side is present.
#[derive(Debug, PartialEq, Eq)]
pub struct CompoundEnvironment {
    pub condition: Option<EnvClause>,
    pub exclusion: Option<EnvClause>,
    pub span: Span,
}

/// `from => to env?`
#[derive(Debug, PartialEq, Eq)]
pub struct StandardExpression {
    pub from: RuleElement,
    pub to: RuleElement,
    pub environment: Option<CompoundEnvironment>,
    pub span: Span,
}

/// A rule name: name segments joined by `-`.
#[derive(Debug, PartialEq, Eq)]
pub struct RuleName {
    pub segments: Vec<Vec<char>>,
    pub span: Span,
}

/// One expression of a block.
#[derive(Debug, PartialEq, Eq)]
pub enum Expression {
    Standard(StandardExpression),
    /// `Unchanged`
    Unchanged { span: Span },
    /// `Off`
    Off { span: Span },
    /// `:name`: a reference to another named block.
    BlockRef { name: RuleName, span: Span },
}

/// A modifier on a change rule or block continuation.
#[derive(Debug, PartialEq, Eq)]
pub enum RuleModifier {
    /// `@name`: restrict the block to a declared element.
    FilterRef { name: Vec<char>, span: Span },
    /// A fancy matrix filter.
    FilterMatrix { matrix: Matrix, span: Span },
    Ltr { span: Span },
    Rtl { span: Span },
    Propagate { span: Span },
    Defer { span: Span },
    Cleanup { span: Span },
    /// Any other plain name used as a modifier.
    Named { name: Vec<char>, span: Span },
}

/// `Then`/`Else` continuation kind.
#[derive(Clone, Copy, Debug, PartialEq, Eq)]
pub enum BranchKind {
    /// `Then`
    AllMatching,
    /// `Else`
    FirstMatching,
}

/// One element of a block: a run of expressions, or a parenthesized
/// nested block.
#[derive(Debug, PartialEq, Eq)]
pub enum BlockElement {
    Expressions { exprs: Vec<Expression>, span: Span },
    Nested { block: Box<Block>, span: Span },
}

/// A continuation clause of a block, with its own modifier set.
#[derive(Debug, PartialEq, Eq)]
pub struct BlockBranch {
    pub kind: BranchKind,
    pub modifiers: Vec<RuleModifier>,
    pub elem: BlockElement,
    pub span: Span,
}

/// An ordered list of rule expressions with optional continuations.
#[derive(Debug, PartialEq, Eq)]
pub struct Block {
    pub first: BlockElement,
    pub branches: Vec<BlockBranch>,
    pub span: Span,
}

/// One boolean feature of a feature declaration.
#[derive(Debug, PartialEq, Eq)]
pub struct PlusFeature {
    pub syllable: bool,
    pub plus: bool,
    pub name: Vec<char>,
    pub span: Span,
}

/// A named value of a multi-valued feature axis.
#[derive(Debug, PartialEq, Eq)]
pub struct FeatureValue {
    pub name: Vec<char>,
    pub span: Span,
}

/// `Feature name (alias?, val, ...)`: a multi-valued feature axis.
#[derive(Debug, PartialEq, Eq)]
pub struct ValuedFeature {
    pub syllable: bool,
    pub name: Vec<char>,
    pub null_alias: Option<FeatureValue>,
    pub values: Vec<FeatureValue>,
    pub span: Span,
}

/// A feature declaration statement: one boolean feature, or one
/// multi-valued axis. `Feature a, b, c` yields three boolean feature
/// statements in file order.
#[derive(Debug, PartialEq, Eq)]
pub enum FeatureDecl {
    Bool(PlusFeature),
    Valued(ValuedFeature),
}

/// Positional modifier of a diacritic declaration.
#[derive(Clone, Copy, Debug, PartialEq, Eq)]
pub enum DiacriticModifier {
    Before { span: Span },
    First { span: Span },
    Floating { span: Span },
}

/// `Diacritic text (mods)* [matrix] (mods)*`
#[derive(Debug, PartialEq, Eq)]
pub struct DiacriticDecl {
    pub text: TextToken,
    pub pre_modifiers: Vec<DiacriticModifier>,
    pub matrix: Matrix,
    pub post_modifiers: Vec<DiacriticModifier>,
    pub span: Span,
}

/// `Symbol name, name, ...` or `Symbol name [matrix]`
#[derive(Debug, PartialEq, Eq)]
pub enum SymbolDecl {
    List { names: Vec<TextToken>, span: Span },
    WithMatrix { name: TextToken, matrix: Matrix, span: Span },
}

/// One member of a class declaration.
#[derive(Debug, PartialEq, Eq)]
pub enum ClassItem {
    Ref { name: Vec<char>, span: Span },
    Text(TextToken),
}

/// `Class name { item, item, ... }`
#[derive(Debug, PartialEq, Eq)]
pub struct ClassDecl {
    pub name: Vec<char>,
    pub items: Vec<ClassItem>,
    pub span: Span,
}

/// `Element name element`
#[derive(Debug, PartialEq, Eq)]
pub struct ElementDecl {
    pub name: Vec<char>,
    pub element: RuleElement,
    pub span: Span,
}

/// A syllable pattern: a structured onset/nucleus/(coda) pattern or a
/// plain rule element.
#[derive(Debug, PartialEq, Eq)]
pub enum SyllablePattern {
    Structured {
        reluctant_onset: Option<RuleElement>,
        parts: Vec<RuleElement>,
        span: Span,
    },
    Plain(RuleElement),
}

/// One expression of a syllable declaration.
#[derive(Debug, PartialEq, Eq)]
pub struct SyllableExpression {
    pub pattern: SyllablePattern,
    pub matrix: Option<Matrix>,
    pub environment: Option<CompoundEnvironment>,
    pub span: Span,
}

/// `Syllable: ...`: the explicit or clear directive, or a list of
/// syllable expressions.
#[derive(Debug, PartialEq, Eq)]
pub enum SyllableDecl {
    Explicit { span: Span },
    Clear { span: Span },
    Patterns { exprs: Vec<SyllableExpression>, span: Span },
}

/// `name mods* :? block`
#[derive(Debug, PartialEq, Eq)]
pub struct ChangeRule {
    pub name: RuleName,
    pub modifiers: Vec<RuleModifier>,
    pub block: Block,
    pub span: Span,
}

/// A top-level statement of an LSC file.
#[derive(Debug, PartialEq, Eq)]
pub enum Statement {
    Feature { decl: FeatureDecl, span: Span },
    Diacritic { decl: DiacriticDecl, span: Span },
    Symbol { decl: SymbolDecl, span: Span },
    Class { decl: ClassDecl, span: Span },
    Element { decl: ElementDecl, span: Span },
    Syllable { decl: SyllableDecl, span: Span },
    Deromanizer { block: Block, span: Span },
    InterRomanizer { name: RuleName, block: Block, span: Span },
    Romanizer { block: Block, span: Span },
    Rule { rule: ChangeRule, span: Span },
    Expression { expr: StandardExpression, span: Span },
}

/// Token kinds a failed parse expected at its furthest position.
#[derive(Clone, Copy, Debug, PartialEq, Eq)]
pub enum Expected {
    /// An alphanumeric name.
    Name,
    /// A run of digits.
    Number,
    /// A literal text character.
    Text,
    /// A keyword (its exact spelling depends on the grammar rule).
    Keyword,
    /// A specific punctuation character.
    Symbol(char),
    /// The end of the input.
    EndOfFile,
}

/// A positioned parse failure: the furthest character offset the parse
/// reached, and the token kinds that would have let it continue there.
#[derive(Debug, PartialEq, Eq)]
pub struct ParseError {
    pub pos: usize,
    pub expected: Vec<Expected>,
}

} // verus!
