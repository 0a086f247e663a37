//! The grammar itself, as specification functions.  For each rule,
//! `<rule>_end(s, pos)` gives the offset just past the text the rule matches
//! when matching starts at `pos` in `s`, or `None` when the rule does not
//! match there.  Matching is greedy and deterministic: repetitions always
//! take the maximal run, as each rule is a fixed, unambiguous token shape.

use vstd::prelude::*;

use crate::node::Rule;
use crate::text::{
    digit_pred, digits_val, is_digit_char, is_item_char, is_upper_char, is_ws_char, item_pred,
    nonquote_pred, run_end, space_pred,
};

verus! {

/// A fixed piece of text: matches exactly `l` at `pos`.
pub open spec fn lit_end(s: Seq<char>, pos: int, l: Seq<char>) -> Option<int> {
    if 0 <= pos && pos + l.len() <= s.len() && s.subrange(pos, pos + l.len()) == l {
        Some(pos + l.len())
    } else {
        None
    }
}

/// One whitespace character.
pub open spec fn whitespace_end(s: Seq<char>, pos: int) -> Option<int> {
    if 0 <= pos && pos < s.len() && is_ws_char(s[pos]) {
        Some(pos + 1)
    } else {
        None
    }
}

/// One or more spaces.
pub open spec fn space_end(s: Seq<char>, pos: int) -> Option<int> {
    if 0 <= pos && pos < s.len() && s[pos] == ' ' {
        Some(run_end(s, pos, space_pred()))
    } else {
        None
    }
}

/// One or more digits.
pub open spec fn digits_end(s: Seq<char>, pos: int) -> Option<int> {
    if 0 <= pos && pos < s.len() && is_digit_char(s[pos]) {
        Some(run_end(s, pos, digit_pred()))
    } else {
        None
    }
}

/// Exactly four digits.
pub open spec fn year_end(s: Seq<char>, pos: int) -> Option<int> {
    if 0 <= pos && pos + 4 <= s.len() && (forall|k: int| pos <= k < pos + 4 ==> is_digit_char(s[k])) {
        Some(pos + 4)
    } else {
        None
    }
}

/// The end of the optional fraction part that may follow an integer part
/// ending at `e`: a `.` followed by one or more digits, or nothing.
pub open spec fn frac_end(s: Seq<char>, e: int) -> int {
    if 0 <= e && e < s.len() && s[e] == '.' {
        match digits_end(s, e + 1) {
            Some(e2) => e2,
            None => e,
        }
    } else {
        e
    }
}

/// An optionally negative decimal number: `-`?, digits, (`.` digits)?.
pub open spec fn number_end(s: Seq<char>, pos: int) -> Option<int> {
    let q = if 0 <= pos && pos < s.len() && s[pos] == '-' {
        pos + 1
    } else {
        pos
    };
    match digits_end(s, q) {
        Some(e1) => Some(frac_end(s, e1)),
        None => None,
    }
}

/// The digits of the fraction part, or the empty sequence when there is
/// none.
pub open spec fn frac_digits(s: Seq<char>, e1: int, e2: int) -> Seq<char> {
    if e2 > e1 {
        s.subrange(e1 + 1, e2)
    } else {
        Seq::empty()
    }
}

/// Whether a rating token with integer digits `ip` and fraction digits `fp`
/// denotes a value in the inclusive range [0, 10].
pub open spec fn rating_in_range(ip: Seq<char>, fp: Seq<char>) -> bool {
    digits_val(ip) < 10 || (digits_val(ip) == 10 && (forall|k: int|
        0 <= k < fp.len() ==> fp[k] == '0'))
}

/// A rating value: digits with an optional fraction, rejected at the grammar
/// level when the denoted value exceeds 10.
pub open spec fn rating_value_end(s: Seq<char>, pos: int) -> Option<int> {
    match digits_end(s, pos) {
        Some(e1) => {
            let e2 = frac_end(s, e1);
            if rating_in_range(s.subrange(pos, e1), frac_digits(s, e1, e2)) {
                Some(e2)
            } else {
                None
            }
        },
        None => None,
    }
}

/// A double quote, any run of non-quote characters, and a closing quote.
pub open spec fn quoted_end(s: Seq<char>, pos: int) -> Option<int> {
    if 0 <= pos && pos < s.len() && s[pos] == '"' {
        let q = run_end(s, pos + 1, nonquote_pred());
        if q < s.len() {
            Some(q + 1)
        } else {
            None
        }
    } else {
        None
    }
}

/// Exactly three uppercase ASCII letters.
pub open spec fn currency_end(s: Seq<char>, pos: int) -> Option<int> {
    if 0 <= pos && pos + 3 <= s.len() && (forall|k: int| pos <= k < pos + 3 ==> is_upper_char(s[k])) {
        Some(pos + 3)
    } else {
        None
    }
}

/// One author or genre item: a nonempty run of item characters.
pub open spec fn item_end(s: Seq<char>, pos: int) -> Option<int> {
    if 0 <= pos && pos < s.len() && is_item_char(s[pos]) {
        Some(run_end(s, pos, item_pred()))
    } else {
        None
    }
}

/// The spans of the items that follow a first item ending at `e`: each is a
/// `,` followed by a nonempty item run.
pub open spec fn item_spans_tail(s: Seq<char>, e: int) -> Seq<(int, int)>
    decreases s.len() - e,
{
    if 0 <= e && e + 1 < s.len() && s[e] == ',' && is_item_char(s[e + 1]) {
        let e2 = run_end(s, e + 1, item_pred());
        proof {
            crate::text::lemma_run_end(s, e + 1, item_pred());
        }
        seq![(e + 1, e2)] + item_spans_tail(s, e2)
    } else {
        Seq::empty()
    }
}

/// The spans of the comma-separated items starting at `pos`; empty when no
/// item starts there.
pub open spec fn item_spans(s: Seq<char>, pos: int) -> Seq<(int, int)> {
    match item_end(s, pos) {
        Some(e) => seq![(pos, e)] + item_spans_tail(s, e),
        None => Seq::empty(),
    }
}

/// The offset just past the item region that starts at `pos`.
pub open spec fn items_end(s: Seq<char>, pos: int) -> int {
    let sp = item_spans(s, pos);
    if sp.len() == 0 {
        pos
    } else {
        sp.last().1
    }
}

/// A bracketed, labeled list line: the label (ending in `[`), the items, `]`
/// and a newline.
pub open spec fn list_end(s: Seq<char>, pos: int, label: Seq<char>) -> Option<int> {
    match lit_end(s, pos, label) {
        Some(p1) => {
            let e = items_end(s, p1);
            match lit_end(s, e, "]"@) {
                Some(p2) => lit_end(s, p2, "\n"@),
                None => None,
            }
        },
        None => None,
    }
}

pub open spec fn list_of_authors_end(s: Seq<char>, pos: int) -> Option<int> {
    list_end(s, pos, "Authors: ["@)
}

pub open spec fn list_of_genres_end(s: Seq<char>, pos: int) -> Option<int> {
    list_end(s, pos, "Genres: ["@)
}

/// The book title line: `Book `, a book number, `: `, a quoted title, and a
/// newline.
pub open spec fn book_title_end(s: Seq<char>, pos: int) -> Option<int> {
    match lit_end(s, pos, "Book "@) {
        Some(p1) => match digits_end(s, p1) {
            Some(p2) => match lit_end(s, p2, ": "@) {
                Some(p3) => match quoted_end(s, p3) {
                    Some(p4) => lit_end(s, p4, "\n"@),
                    None => None,
                },
                None => None,
            },
            None => None,
        },
        None => None,
    }
}

/// The publication year line: `Publication Year: `, a year, and a newline.
pub open spec fn publication_year_end(s: Seq<char>, pos: int) -> Option<int> {
    match lit_end(s, pos, "Publication Year: "@) {
        Some(p1) => match year_end(s, p1) {
            Some(p2) => lit_end(s, p2, "\n"@),
            None => None,
        },
        None => None,
    }
}

/// The rating line: `Rating: `, a rating value, and a newline.
pub open spec fn rating_end(s: Seq<char>, pos: int) -> Option<int> {
    match lit_end(s, pos, "Rating: "@) {
        Some(p1) => match rating_value_end(s, p1) {
            Some(p2) => lit_end(s, p2, "\n"@),
            None => None,
        },
        None => None,
    }
}

/// The price line: `Price: `, a number, spaces, a currency code, and a
/// newline.
pub open spec fn price_end(s: Seq<char>, pos: int) -> Option<int> {
    match lit_end(s, pos, "Price: "@) {
        Some(p1) => match number_end(s, p1) {
            Some(p2) => match space_end(s, p2) {
                Some(p3) => match currency_end(s, p3) {
                    Some(p4) => lit_end(s, p4, "\n"@),
                    None => None,
                },
                None => None,
            },
            None => None,
        },
        None => None,
    }
}

/// One book: its six field lines in fixed order.
pub open spec fn book_end(s: Seq<char>, pos: int) -> Option<int> {
    match book_title_end(s, pos) {
        Some(e1) => match list_of_authors_end(s, e1) {
            Some(e2) => match list_of_genres_end(s, e2) {
                Some(e3) => match publication_year_end(s, e3) {
                    Some(e4) => match rating_end(s, e4) {
                        Some(e5) => price_end(s, e5),
                        None => None,
                    },
                    None => None,
                },
                None => None,
            },
            None => None,
        },
        None => None,
    }
}

/// A book consumes at least its title label, so its end lies strictly past
/// its start.
pub proof fn lemma_book_end_advances(s: Seq<char>, pos: int)
    requires
        book_end(s, pos) is Some,
    ensures
        pos < book_end(s, pos).unwrap(),
        book_end(s, pos).unwrap() <= s.len(),
{
    reveal_strlit("Book ");
    let p1 = lit_end(s, pos, "Book "@).unwrap();
    let p2 = digits_end(s, p1).unwrap();
    crate::text::lemma_run_end(s, p1, digit_pred());
    let p3 = lit_end(s, p2, ": "@).unwrap();
    let p4 = quoted_end(s, p3).unwrap();
    crate::text::lemma_run_end(s, p3 + 1, nonquote_pred());
    let e1 = lit_end(s, p4, "\n"@).unwrap();
    let e2 = list_of_authors_end(s, e1).unwrap();
    lemma_list_end_bounds(s, e1, "Authors: ["@);
    let e3 = list_of_genres_end(s, e2).unwrap();
    lemma_list_end_bounds(s, e2, "Genres: ["@);
    let e4 = publication_year_end(s, e3).unwrap();
    let e5 = rating_end(s, e4).unwrap();
    lemma_rating_end_bounds(s, e4);
    lemma_price_end_bounds(s, e5);
}

/// Every item span lies between `e` and the end of the text, in increasing
/// order of position.
pub proof fn lemma_item_spans_tail_bounds(s: Seq<char>, e: int)
    requires
        0 <= e <= s.len(),
    ensures
        forall|i: int|
            0 <= i < item_spans_tail(s, e).len() ==> e < (#[trigger] item_spans_tail(s, e)[i]).0
                && item_spans_tail(s, e)[i].0 <= item_spans_tail(s, e)[i].1 <= s.len(),
    decreases s.len() - e,
{
    if 0 <= e && e + 1 < s.len() && s[e] == ',' && is_item_char(s[e + 1]) {
        let e2 = run_end(s, e + 1, item_pred());
        crate::text::lemma_run_end(s, e + 1, item_pred());
        lemma_item_spans_tail_bounds(s, e2);
        assert forall|i: int| 0 <= i < item_spans_tail(s, e).len() implies e < (
        #[trigger] item_spans_tail(s, e)[i]).0 && item_spans_tail(s, e)[i].0 <= item_spans_tail(
            s,
            e,
        )[i].1 <= s.len() by {
            if i == 0 {
                assert(item_spans_tail(s, e)[0] == (e + 1, e2));
            } else {
                assert(item_spans_tail(s, e)[i] == item_spans_tail(s, e2)[i - 1]);
            }
        }
    }
}

/// The item region starts at `pos` and its end stays within the text.
pub proof fn lemma_items_end_bounds(s: Seq<char>, pos: int)
    requires
        0 <= pos <= s.len(),
    ensures
        pos <= items_end(s, pos) <= s.len(),
    decreases s.len() - pos,
{
    match item_end(s, pos) {
        Some(e) => {
            crate::text::lemma_run_end(s, pos, item_pred());
            lemma_item_spans_tail_bounds(s, e);
            let sp = item_spans(s, pos);
            let tail = item_spans_tail(s, e);
            if tail.len() > 0 {
                assert(sp.last() == tail[tail.len() - 1]);
            } else {
                assert(sp.last() == (pos, e));
            }
        },
        None => {},
    }
}

pub proof fn lemma_list_end_bounds(s: Seq<char>, pos: int, label: Seq<char>)
    requires
        list_end(s, pos, label) is Some,
    ensures
        pos <= list_end(s, pos, label).unwrap() <= s.len(),
        list_end(s, pos, label).unwrap() >= pos + label.len(),
{
    let p1 = lit_end(s, pos, label).unwrap();
    lemma_items_end_bounds(s, p1);
}

pub proof fn lemma_rating_end_bounds(s: Seq<char>, pos: int)
    requires
        rating_end(s, pos) is Some,
    ensures
        pos <= rating_end(s, pos).unwrap() <= s.len(),
{
    let p1 = lit_end(s, pos, "Rating: "@).unwrap();
    let p2 = rating_value_end(s, p1).unwrap();
    crate::text::lemma_run_end(s, p1, digit_pred());
    let e1 = run_end(s, p1, digit_pred());
    if 0 <= e1 && e1 < s.len() && s[e1] == '.' {
        if digits_end(s, e1 + 1) is Some {
            crate::text::lemma_run_end(s, e1 + 1, digit_pred());
        }
    }
}

pub proof fn lemma_price_end_bounds(s: Seq<char>, pos: int)
    requires
        price_end(s, pos) is Some,
    ensures
        pos <= price_end(s, pos).unwrap() <= s.len(),
{
    let p1 = lit_end(s, pos, "Price: "@).unwrap();
    let q = if 0 <= p1 && p1 < s.len() && s[p1] == '-' {
        p1 + 1
    } else {
        p1
    };
    let e1 = digits_end(s, q).unwrap();
    crate::text::lemma_run_end(s, q, digit_pred());
    if 0 <= e1 && e1 < s.len() && s[e1] == '.' {
        if digits_end(s, e1 + 1) is Some {
            crate::text::lemma_run_end(s, e1 + 1, digit_pred());
        }
    }
    let p2 = number_end(s, p1).unwrap();
    let p3 = space_end(s, p2).unwrap();
    crate::text::lemma_run_end(s, p2, space_pred());
}

/// The spans of the books that follow a book ending at `e`: each is an
/// optional blank line followed by a book.
pub open spec fn book_spans_tail(s: Seq<char>, e: int) -> Seq<(int, int)>
    decreases s.len() - e when 0 <= e <= s.len()
{
    let p = if e < s.len() && s[e] == '\n' {
        e + 1
    } else {
        e
    };
    match book_end(s, p) {
        Some(e2) => {
            proof {
                lemma_book_end_advances(s, p);
            }
            seq![(p, e2)] + book_spans_tail(s, e2)
        },
        None => Seq::empty(),
    }
}

/// The spans of the books of a document starting at `pos`; empty when no
/// book starts there.
pub open spec fn book_spans(s: Seq<char>, pos: int) -> Seq<(int, int)> {
    if 0 <= pos <= s.len() {
        match book_end(s, pos) {
            Some(e) => seq![(pos, e)] + book_spans_tail(s, e),
            None => Seq::empty(),
        }
    } else {
        Seq::empty()
    }
}

/// The offset just past the last book, including the optional blank line
/// that may follow it.
pub open spec fn books_final(s: Seq<char>, last: int) -> int {
    if last < s.len() && s[last] == '\n' {
        last + 1
    } else {
        last
    }
}

/// A whole document: one or more books, each optionally followed by one
/// blank line, consuming the entire input.
pub open spec fn books_end(s: Seq<char>, pos: int) -> Option<int> {
    let sp = book_spans(s, pos);
    if sp.len() > 0 && books_final(s, sp.last().1) == s.len() {
        Some(s.len() as int)
    } else {
        None
    }
}

/// The end offset of matching `r` at `pos` in `s`, or `None` when `r` does
/// not match there.  The `books` rule is the whole-document entry point and
/// also requires the match to consume the entire input; every other rule
/// matches a prefix of the remaining text.  The `label` rule exists only as
/// a child inside field lines and never matches on its own.
pub open spec fn rule_end(r: Rule, s: Seq<char>, pos: int) -> Option<int> {
    match r {
        Rule::WHITESPACE => whitespace_end(s, pos),
        Rule::SPACE => space_end(s, pos),
        Rule::book_num => digits_end(s, pos),
        Rule::year => year_end(s, pos),
        Rule::number => number_end(s, pos),
        Rule::rating_value => rating_value_end(s, pos),
        Rule::quoted_text => quoted_end(s, pos),
        Rule::currency => currency_end(s, pos),
        Rule::author => item_end(s, pos),
        Rule::genre_item => item_end(s, pos),
        Rule::list_of_authors => list_of_authors_end(s, pos),
        Rule::list_of_genres => list_of_genres_end(s, pos),
        Rule::book_title => book_title_end(s, pos),
        Rule::publication_year => publication_year_end(s, pos),
        Rule::rating => rating_end(s, pos),
        Rule::price => price_end(s, pos),
        Rule::book => book_end(s, pos),
        Rule::books => books_end(s, pos),
        Rule::label => None,
    }
}

} // verus!
