//! The concrete parse tree: grammar rule identities, source spans, parse
//! nodes and parse failures.

use vstd::prelude::*;

verus! {

/// The closed set of grammar rules.  Variant names follow the grammar's own
/// rule names; `label` marks the fixed label text at the start of a field
/// line, which appears in trees only as a child of its field's node.
#[allow(non_camel_case_types)]
#[derive(Clone, Copy, Debug, PartialEq, Eq, Structural)]
pub enum Rule {
    /// Exactly one whitespace character: space, tab, carriage return or
    /// newline.
    WHITESPACE,
    /// One or more space characters.
    SPACE,
    /// One or more decimal digits: the number after the `Book ` label.
    book_num,
    /// Exactly four decimal digits.
    year,
    /// An optional `-`, one or more digits, and an optional `.` followed by
    /// one or more digits.
    number,
    /// Digits with an optional fraction, whose numeric value is at most 10.
    rating_value,
    /// A double quote, any non-quote characters, and a closing double quote.
    quoted_text,
    /// Exactly three uppercase ASCII letters.
    currency,
    /// One or more characters other than `[`, `]` and `,`.
    author,
    /// One or more characters other than `[`, `]` and `,`.
    genre_item,
    /// `Authors: [`, comma-separated author items, `]`, and a newline.
    list_of_authors,
    /// `Genres: [`, comma-separated genre items, `]`, and a newline.
    list_of_genres,
    /// `Book `, a book number, `: `, a quoted title, and a newline.
    book_title,
    /// `Publication Year: `, a year, and a newline.
    publication_year,
    /// `Rating: `, a rating value, and a newline.
    rating,
    /// `Price: `, a number, spaces, a currency code, and a newline.
    price,
    /// The six fields of one book in fixed order.
    book,
    /// One or more books, each optionally followed by one blank line,
    /// consuming the entire input.
    books,
    /// The fixed label text that starts a field line.
    label,
}

/// A pair of character offsets into the source text: the half-open range a
/// node matched.
#[derive(Clone, Copy, Debug, PartialEq, Eq, Structural)]
pub struct Span {
    pub start: usize,
    pub end: usize,
}

impl Span {
    pub fn start(&self) -> (r: usize)
        ensures
            r == self.start,
    {
        self.start
    }

    pub fn end(&self) -> (r: usize)
        ensures
            r == self.end,
    {
        self.end
    }
}

/// A successful match of one rule: the rule, the matched span, an owned copy
/// of the matched text, and the child nodes of composite rules in source
/// order.
#[derive(Debug, PartialEq)]
pub struct ParseNode {
    pub rule: Rule,
    pub start: usize,
    pub end: usize,
    pub text: String,
    pub children: Vec<ParseNode>,
}

impl ParseNode {
    /// The rule this node matched.
    pub fn as_rule(&self) -> (r: Rule)
        ensures
            r == self.rule,
    {
        self.rule
    }

    /// The exact text this node matched.
    pub fn as_str(&self) -> (r: &str)
        ensures
            r@ == self.text@,
    {
        self.text.as_str()
    }

    /// The character-offset span this node matched.
    pub fn as_span(&self) -> (r: Span)
        ensures
            r.start == self.start,
            r.end == self.end,
    {
        Span { start: self.start, end: self.end }
    }

    /// The child nodes, in source order.
    pub fn children(&self) -> (r: &Vec<ParseNode>)
        ensures
            r == &self.children,
    {
        &self.children
    }
}

/// A failed parse: the rule that was being matched and the character offset
/// at which matching could not proceed.
#[derive(Clone, Copy, Debug, PartialEq, Eq, Structural)]
pub struct ParseFailure {
    pub rule: Rule,
    pub offset: usize,
}

impl ParseFailure {
    pub fn rule(&self) -> (r: Rule)
        ensures
            r == self.rule,
    {
        self.rule
    }

    pub fn offset(&self) -> (r: usize)
        ensures
            r == self.offset,
    {
        self.offset
    }
}

} // verus!
