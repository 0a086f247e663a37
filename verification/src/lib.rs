//! A verified parser for plain-text book description documents.
//!
//! A document is a sequence of book records, each made of six labeled lines
//! (title, authors, genres, publication year, rating, price).  The grammar
//! engine recognizes a document and produces a concrete parse tree with exact
//! source spans; the record extractor folds one book's subtree into a flat,
//! owned `Book` value.

pub mod extract;
pub mod laws;
pub mod node;
pub mod parser;
pub mod rules;
pub mod text;
pub mod tree;

pub use extract::{parse_books, Book};
pub use node::{ParseFailure, ParseNode, Rule, Span};
pub use parser::Grammar;
pub use text::strip_carriage_returns;
