//! The core of a word-database tool for modelling historical language
//! evolution.
//!
//! The largest part is a parser for the LSC phonological rule language:
//! `scan` holds the position-tracked scanner primitives, `elements` the
//! layered pattern-expression, matrix and environment grammars, `decls`
//! the declaration grammar with the statement dispatcher and the
//! whole-file parse, `ast` the executable syntax tree and `model` its
//! mathematical view. Around it
//! stand `words`, a symbol-level rewrite engine applying ordered rules to
//! words; `wdb`, the configuration and the request and result shapes of
//! the external rule runner; and `text`, plain-text helpers. File,
//! database and process work stays outside the library and exchanges
//! plain values with it.

pub mod ast;
pub mod model;
pub mod decls;
pub mod elements;
pub mod scan;
pub mod text;
pub mod wdb;
pub mod words;
