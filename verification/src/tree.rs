//! Well-formedness of parse trees: what it means for a `ParseNode` to be
//! exactly the tree the grammar produces for a given source text, with every
//! span pinned down by the grammar's match offsets.

use vstd::prelude::*;

use crate::node::{ParseNode, Rule};
use crate::rules::{
    book_spans, book_title_end, books_end, currency_end, digits_end, item_spans, items_end,
    list_of_authors_end, list_of_genres_end, lit_end, number_end, price_end, publication_year_end,
    quoted_end, rating_end, rating_value_end, space_end, year_end,
};
use crate::text::{is_digit_char, nonquote_pred, run_end};

verus! {

/// `n` records a match of rule `r` over the span `[a, b)` of `s`, with its
/// text an exact copy of that span.
pub open spec fn node_at(n: ParseNode, s: Seq<char>, r: Rule, a: int, b: int) -> bool {
    &&& n.rule == r
    &&& n.start == a
    &&& n.end == b
    &&& 0 <= a && a <= b && b <= s.len()
    &&& n.text@ == s.subrange(a, b)
}

/// A childless node recording a match of `r` over `[a, b)`.
pub open spec fn leaf_at(n: ParseNode, s: Seq<char>, r: Rule, a: int, b: int) -> bool {
    node_at(n, s, r, a, b) && n.children@.len() == 0
}

/// The tree of a `book_title` line: label, book number and quoted title as
/// children, at the offsets the grammar assigns them.
pub open spec fn title_node_ok(n: ParseNode, s: Seq<char>) -> bool {
    &&& node_at(n, s, Rule::book_title, n.start as int, n.end as int)
    &&& lit_end(s, n.start as int, "Book "@) matches Some(p1) && {
        &&& digits_end(s, p1) matches Some(p2) && {
            &&& lit_end(s, p2, ": "@) matches Some(p3) && {
                &&& quoted_end(s, p3) matches Some(p4) && {
                    &&& lit_end(s, p4, "\n"@) == Some(n.end as int)
                    &&& n.children@.len() == 3
                    &&& leaf_at(n.children@[0], s, Rule::label, n.start as int, p1)
                    &&& leaf_at(n.children@[1], s, Rule::book_num, p1, p2)
                    &&& leaf_at(n.children@[2], s, Rule::quoted_text, p3, p4)
                }
            }
        }
    }
}

/// The tree of a list line (`Authors: [...]` or `Genres: [...]`): one leaf
/// child per item, at the item spans the grammar assigns.
pub open spec fn list_node_ok(
    n: ParseNode,
    s: Seq<char>,
    r: Rule,
    item_rule: Rule,
    label: Seq<char>,
) -> bool {
    &&& node_at(n, s, r, n.start as int, n.end as int)
    &&& lit_end(s, n.start as int, label) matches Some(p1) && {
        let sp = item_spans(s, p1);
        let e = items_end(s, p1);
        &&& lit_end(s, e, "]"@) matches Some(p2) && lit_end(s, p2, "\n"@) == Some(n.end as int)
        &&& n.children@.len() == sp.len()
        &&& forall|i: int|
            0 <= i < sp.len() ==> leaf_at(
                #[trigger] n.children@[i],
                s,
                item_rule,
                sp[i].0,
                sp[i].1,
            )
    }
}

pub open spec fn authors_node_ok(n: ParseNode, s: Seq<char>) -> bool {
    list_node_ok(n, s, Rule::list_of_authors, Rule::author, "Authors: ["@)
}

pub open spec fn genres_node_ok(n: ParseNode, s: Seq<char>) -> bool {
    list_node_ok(n, s, Rule::list_of_genres, Rule::genre_item, "Genres: ["@)
}

/// The tree of a `Publication Year: ` line: label and year leaf children.
pub open spec fn year_node_ok(n: ParseNode, s: Seq<char>) -> bool {
    &&& node_at(n, s, Rule::publication_year, n.start as int, n.end as int)
    &&& lit_end(s, n.start as int, "Publication Year: "@) matches Some(p1) && {
        &&& year_end(s, p1) matches Some(p2) && {
            &&& lit_end(s, p2, "\n"@) == Some(n.end as int)
            &&& n.children@.len() == 2
            &&& leaf_at(n.children@[0], s, Rule::label, n.start as int, p1)
            &&& leaf_at(n.children@[1], s, Rule::year, p1, p2)
        }
    }
}

/// The tree of a `Rating: ` line: label and rating-value leaf children.
pub open spec fn rating_node_ok(n: ParseNode, s: Seq<char>) -> bool {
    &&& node_at(n, s, Rule::rating, n.start as int, n.end as int)
    &&& lit_end(s, n.start as int, "Rating: "@) matches Some(p1) && {
        &&& rating_value_end(s, p1) matches Some(p2) && {
            &&& lit_end(s, p2, "\n"@) == Some(n.end as int)
            &&& n.children@.len() == 2
            &&& leaf_at(n.children@[0], s, Rule::label, n.start as int, p1)
            &&& leaf_at(n.children@[1], s, Rule::rating_value, p1, p2)
        }
    }
}

/// The tree of a `Price: ` line: label, amount, space run and currency leaf
/// children.
pub open spec fn price_node_ok(n: ParseNode, s: Seq<char>) -> bool {
    &&& node_at(n, s, Rule::price, n.start as int, n.end as int)
    &&& lit_end(s, n.start as int, "Price: "@) matches Some(p1) && {
        &&& number_end(s, p1) matches Some(p2) && {
            &&& space_end(s, p2) matches Some(p3) && {
                &&& currency_end(s, p3) matches Some(p4) && {
                    &&& lit_end(s, p4, "\n"@) == Some(n.end as int)
                    &&& n.children@.len() == 4
                    &&& leaf_at(n.children@[0], s, Rule::label, n.start as int, p1)
                    &&& leaf_at(n.children@[1], s, Rule::number, p1, p2)
                    &&& leaf_at(n.children@[2], s, Rule::SPACE, p2, p3)
                    &&& leaf_at(n.children@[3], s, Rule::currency, p3, p4)
                }
            }
        }
    }
}

/// The tree of one book: its six field subtrees in fixed order, spanning the
/// book's text without gaps.
pub open spec fn book_node_ok(n: ParseNode, s: Seq<char>) -> bool {
    &&& node_at(n, s, Rule::book, n.start as int, n.end as int)
    &&& book_title_end(s, n.start as int) matches Some(e1) && {
        &&& list_of_authors_end(s, e1) matches Some(e2) && {
            &&& list_of_genres_end(s, e2) matches Some(e3) && {
                &&& publication_year_end(s, e3) matches Some(e4) && {
                    &&& rating_end(s, e4) matches Some(e5) && {
                        &&& price_end(s, e5) == Some(n.end as int)
                        &&& n.children@.len() == 6
                        &&& n.children@[0].start == n.start && n.children@[0].end == e1
                        &&& title_node_ok(n.children@[0], s)
                        &&& n.children@[1].start == e1 && n.children@[1].end == e2
                        &&& authors_node_ok(n.children@[1], s)
                        &&& n.children@[2].start == e2 && n.children@[2].end == e3
                        &&& genres_node_ok(n.children@[2], s)
                        &&& n.children@[3].start == e3 && n.children@[3].end == e4
                        &&& year_node_ok(n.children@[3], s)
                        &&& n.children@[4].start == e4 && n.children@[4].end == e5
                        &&& rating_node_ok(n.children@[4], s)
                        &&& n.children@[5].start == e5 && n.children@[5].end == n.end
                        &&& price_node_ok(n.children@[5], s)
                    }
                }
            }
        }
    }
}

/// The tree of a whole document: one `book` subtree per book span.
pub open spec fn books_node_ok(n: ParseNode, s: Seq<char>) -> bool {
    &&& node_at(n, s, Rule::books, n.start as int, n.end as int)
    &&& books_end(s, n.start as int) == Some(n.end as int)
    &&& {
        let sp = book_spans(s, n.start as int);
        &&& n.children@.len() == sp.len()
        &&& forall|i: int|
            0 <= i < sp.len() ==> (#[trigger] n.children@[i]).start == sp[i].0
                && n.children@[i].end == sp[i].1 && book_node_ok(n.children@[i], s)
    }
}

/// The well-formed tree for each invocable rule: composite rules get their
/// structured predicate, atomic rules a childless node.
pub open spec fn rule_node_ok(r: Rule, n: ParseNode, s: Seq<char>) -> bool {
    match r {
        Rule::book_title => title_node_ok(n, s),
        Rule::list_of_authors => authors_node_ok(n, s),
        Rule::list_of_genres => genres_node_ok(n, s),
        Rule::publication_year => year_node_ok(n, s),
        Rule::rating => rating_node_ok(n, s),
        Rule::price => price_node_ok(n, s),
        Rule::book => book_node_ok(n, s),
        Rule::books => books_node_ok(n, s),
        _ => leaf_at(n, s, r, n.start as int, n.end as int),
    }
}

/// The structural facts about a book subtree that the record extractor
/// relies on: six field children in order, each with the children its line
/// shape guarantees.
pub open spec fn book_shape(n: ParseNode) -> bool {
    &&& n.rule == Rule::book
    &&& n.children@.len() == 6
    &&& {
        let f = n.children@[0];
        &&& f.rule == Rule::book_title
        &&& f.children@.len() == 3
        &&& f.children@[2].text@.len() >= 2
        &&& f.children@[2].text@.first() == '"'
        &&& f.children@[2].text@.last() == '"'
    }
    &&& n.children@[1].rule == Rule::list_of_authors
    &&& n.children@[2].rule == Rule::list_of_genres
    &&& {
        let f = n.children@[3];
        &&& f.rule == Rule::publication_year
        &&& f.children@.len() == 2
        &&& f.children@[1].text@.len() == 4
        &&& forall|k: int| 0 <= k < 4 ==> is_digit_char(#[trigger] f.children@[1].text@[k])
    }
    &&& {
        let f = n.children@[4];
        &&& f.rule == Rule::rating
        &&& f.children@.len() == 2
    }
    &&& {
        let f = n.children@[5];
        &&& f.rule == Rule::price
        &&& f.children@.len() == 4
    }
}

/// A well-formed book subtree has the shape the extractor needs.
pub proof fn lemma_book_ok_shape(n: ParseNode, s: Seq<char>)
    requires
        book_node_ok(n, s),
    ensures
        book_shape(n),
{
    let e1 = book_title_end(s, n.start as int).unwrap();
    let t = n.children@[0];
    let p1 = lit_end(s, t.start as int, "Book "@).unwrap();
    let p2 = digits_end(s, p1).unwrap();
    let p3 = lit_end(s, p2, ": "@).unwrap();
    let p4 = quoted_end(s, p3).unwrap();
    let q = run_end(s, p3 + 1, nonquote_pred());
    crate::text::lemma_run_end(s, p3 + 1, nonquote_pred());
    assert(s[p3] == '"');
    assert(s[q] == '"');
    let qt = t.children@[2];
    assert(qt.text@ == s.subrange(p3, p4));
    assert(qt.text@.len() == p4 - p3 >= 2);
    assert(qt.text@.first() == s[p3]);
    assert(qt.text@.last() == s[p4 - 1]);

    let e3 = list_of_genres_end(s, n.children@[2].start as int).unwrap();
    let y = n.children@[3];
    let y1 = lit_end(s, y.start as int, "Publication Year: "@).unwrap();
    let y2 = year_end(s, y1).unwrap();
    let yt = y.children@[1];
    assert(yt.text@ == s.subrange(y1, y2));
    assert(y2 == y1 + 4);
    assert forall|k: int| 0 <= k < 4 implies is_digit_char(#[trigger] yt.text@[k]) by {
        assert(yt.text@[k] == s[y1 + k]);
    }
}

} // verus!
