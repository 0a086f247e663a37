//! The record extractor: folds one book's verified parse subtree into a
//! flat, owned `Book` value, and the whole-document convenience entry point
//! that parses a document and extracts every book in order.

use vstd::prelude::*;

use crate::node::{ParseFailure, ParseNode, Rule};
use crate::parser::Grammar;
use crate::rules::{
    book_spans, books_end, currency_end, digits_end, item_spans, list_of_authors_end,
    list_of_genres_end, lit_end, number_end, publication_year_end, quoted_end, rating_end,
    rating_value_end, space_end, year_end,
};
use crate::text::{
    digit_pred, digits_val, is_digit_char, is_upper_char, is_ws_char, lemma_run_end,
    lemma_trim_noop, nonquote_pred, parse_u16_digits, run_end, trim_seq, trim_str,
};
use crate::tree::{book_node_ok, book_shape, books_node_ok, lemma_book_ok_shape};

verus! {

/// One book, flattened: all data copied out of the source text.  The
/// `rating` field holds the rating token's text (for example `9.5`); its
/// numeric reading is left to the caller, as the grammar has already
/// bounded the value to [0, 10].
#[derive(Debug, PartialEq)]
pub struct Book {
    pub book_title: String,
    pub authors: Vec<String>,
    pub genres: Vec<String>,
    pub publication_year: u16,
    pub rating: String,
    pub price: String,
}

/// The quoted text with exactly its two delimiting quote characters
/// removed.
pub open spec fn strip_quotes(t: Seq<char>) -> Seq<char> {
    t.subrange(1, t.len() - 1)
}

/// Item texts trimmed of surrounding whitespace, with entries that become
/// empty dropped; order and duplicates preserved.
pub open spec fn extract_items(ts: Seq<Seq<char>>) -> Seq<Seq<char>>
    decreases ts.len(),
{
    if ts.len() == 0 {
        Seq::empty()
    } else {
        let rest = extract_items(ts.drop_last());
        let h = trim_seq(ts.last());
        if h.len() > 0 {
            rest.push(h)
        } else {
            rest
        }
    }
}

/// The texts of the item children of a list node.
pub open spec fn child_texts(n: ParseNode) -> Seq<Seq<char>> {
    n.children@.map_values(|c: ParseNode| c.text@)
}

/// What `Book::from_pair` computes from a book subtree, field by field.
pub open spec fn from_pair_post(n: ParseNode, r: Book) -> bool {
    &&& r.book_title@ == strip_quotes(n.children@[0].children@[2].text@)
    &&& r.authors.deep_view() == extract_items(child_texts(n.children@[1]))
    &&& r.genres.deep_view() == extract_items(child_texts(n.children@[2]))
    &&& r.publication_year == digits_val(n.children@[3].children@[1].text@)
    &&& r.rating@ == trim_seq(n.children@[4].children@[1].text@)
    &&& r.price@ == trim_seq(n.children@[5].children@[1].text@) + seq![' '] + trim_seq(
        n.children@[5].children@[3].text@,
    )
}

/// Collects a list node's items: each child's text trimmed, empty results
/// dropped, order preserved.
fn extract_list(list: &ParseNode) -> (out: Vec<String>)
    ensures
        out.deep_view() == extract_items(child_texts(*list)),
{
    let ghost ts = child_texts(*list);
    let mut out: Vec<String> = Vec::new();
    let m = list.children.len();
    let mut i: usize = 0;
    while i < m
        invariant
            0 <= i <= m,
            m == list.children@.len(),
            ts == child_texts(*list),
            out.deep_view() == extract_items(ts.take(i as int)),
        decreases m - i,
    {
        let t = trim_str(list.children[i].as_str());
        proof {
            assert(ts.take(i + 1 as int).drop_last() =~= ts.take(i as int));
            assert(ts.take(i + 1 as int).last() == ts[i as int]);
            assert(ts[i as int] == list.children@[i as int].text@);
        }
        let ghost old_dv = out.deep_view();
        if !t.as_str().is_empty() {
            let ghost tv = t@;
            out.push(t);
            proof {
                assert(out.deep_view() =~= old_dv.push(tv));
            }
        }
        proof {
            assert(out.deep_view() =~= extract_items(ts.take(i + 1 as int)));
        }
        i = i + 1;
    }
    proof {
        assert(ts.take(m as int) =~= ts);
    }
    out
}

impl Book {
    /// Folds a book subtree into a `Book`: the title with its quotes
    /// stripped, the trimmed nonempty authors and genres in order, the year
    /// as an integer, the rating token's text, and the price composed as
    /// `<amount> <currency>`.
    pub fn from_pair(pair: &ParseNode) -> (r: Book)
        requires
            book_shape(*pair),
        ensures
            from_pair_post(*pair, r),
    {
        let title_quoted = &pair.children[0].children[2];
        let tl = title_quoted.as_str().unicode_len();
        let book_title = title_quoted.as_str().substring_char(1, tl - 1).to_owned();
        let authors = extract_list(&pair.children[1]);
        let genres = extract_list(&pair.children[2]);
        let year_text = pair.children[3].children[1].as_str();
        let publication_year = parse_u16_digits(year_text, 0, 4);
        proof {
            assert(year_text@.subrange(0, 4) =~= year_text@);
        }
        let rating = trim_str(pair.children[4].children[1].as_str());
        let mut price = trim_str(pair.children[5].children[1].as_str());
        price.append(" ");
        let cur = trim_str(pair.children[5].children[3].as_str());
        price.append(cur.as_str());
        proof {
            reveal_strlit(" ");
            assert(" "@ =~= seq![' ']);
        }
        Book { book_title, authors, genres, publication_year, rating, price }
    }
}

/// The texts under the given spans of `s`.
pub open spec fn span_texts(s: Seq<char>, sp: Seq<(int, int)>) -> Seq<Seq<char>> {
    sp.map_values(|p: (int, int)| s.subrange(p.0, p.1))
}

/// How one extracted record relates to the source text of the book starting
/// at offset `a`: every field equals the text the grammar assigns it, read
/// straight out of `s`.
pub open spec fn book_fields_at(s: Seq<char>, a: int, r: Book) -> bool {
    lit_end(s, a, "Book "@) matches Some(p1) && {
        digits_end(s, p1) matches Some(p2) && {
            lit_end(s, p2, ": "@) matches Some(p3) && {
                quoted_end(s, p3) matches Some(p4) && {
                    lit_end(s, p4, "\n"@) matches Some(e1) && {
                        &&& r.book_title@ == s.subrange(p3 + 1, p4 - 1)
                        &&& lit_end(s, e1, "Authors: ["@) matches Some(a1)
                            && r.authors.deep_view() == extract_items(
                            span_texts(s, item_spans(s, a1)),
                        )
                        &&& list_of_authors_end(s, e1) matches Some(e2) && {
                            &&& lit_end(s, e2, "Genres: ["@) matches Some(g1)
                                && r.genres.deep_view() == extract_items(
                                span_texts(s, item_spans(s, g1)),
                            )
                            &&& list_of_genres_end(s, e2) matches Some(e3) && {
                                &&& lit_end(s, e3, "Publication Year: "@) matches Some(y1)
                                    && r.publication_year == digits_val(s.subrange(y1, y1 + 4))
                                &&& publication_year_end(s, e3) matches Some(e4) && {
                                    &&& lit_end(s, e4, "Rating: "@) matches Some(v1) && {
                                        rating_value_end(s, v1) matches Some(v2) && r.rating@
                                            == s.subrange(v1, v2)
                                    }
                                    &&& rating_end(s, e4) matches Some(e5) && {
                                        lit_end(s, e5, "Price: "@) matches Some(m1) && {
                                            number_end(s, m1) matches Some(m2) && {
                                                space_end(s, m2) matches Some(m3) && {
                                                    currency_end(s, m3) matches Some(m4)
                                                        && r.price@ == s.subrange(m1, m2) + seq![
                                                        ' ',
                                                    ] + s.subrange(m3, m4)
                                                }
                                            }
                                        }
                                    }
                                }
                            }
                        }
                    }
                }
            }
        }
    }
}

/// A number token is its own trim: it starts with `-` or a digit and ends
/// with a digit.
proof fn lemma_number_token_trim(s: Seq<char>, m1: int, m2: int)
    requires
        number_end(s, m1) == Some(m2),
    ensures
        m1 < m2 <= s.len(),
        trim_seq(s.subrange(m1, m2)) == s.subrange(m1, m2),
{
    let q = if 0 <= m1 && m1 < s.len() && s[m1] == '-' {
        m1 + 1
    } else {
        m1
    };
    let e1 = digits_end(s, q).unwrap();
    assert(is_digit_char(s[q]));
    assert(run_end(s, q, digit_pred()) == run_end(s, q + 1, digit_pred()));
    lemma_run_end(s, q + 1, digit_pred());
    lemma_run_end(s, q, digit_pred());
    if 0 <= e1 && e1 < s.len() && s[e1] == '.' && digits_end(s, e1 + 1) is Some {
        assert(is_digit_char(s[e1 + 1]));
        assert(run_end(s, e1 + 1, digit_pred()) == run_end(s, e1 + 2, digit_pred()));
        lemma_run_end(s, e1 + 2, digit_pred());
        lemma_run_end(s, e1 + 1, digit_pred());
        assert(is_digit_char(s[m2 - 1]));
    } else {
        assert(m2 == e1);
        assert(is_digit_char(s[m2 - 1]));
    }
    let t = s.subrange(m1, m2);
    assert(t[0] == s[m1]);
    assert(t[t.len() - 1] == s[m2 - 1]);
    assert(!is_ws_char(t[0]));
    lemma_trim_noop(t);
}

/// A rating token is its own trim: it starts and ends with a digit.
proof fn lemma_rating_token_trim(s: Seq<char>, v1: int, v2: int)
    requires
        rating_value_end(s, v1) == Some(v2),
    ensures
        v1 < v2 <= s.len(),
        trim_seq(s.subrange(v1, v2)) == s.subrange(v1, v2),
{
    let e1 = digits_end(s, v1).unwrap();
    assert(is_digit_char(s[v1]));
    assert(run_end(s, v1, digit_pred()) == run_end(s, v1 + 1, digit_pred()));
    lemma_run_end(s, v1 + 1, digit_pred());
    lemma_run_end(s, v1, digit_pred());
    if 0 <= e1 && e1 < s.len() && s[e1] == '.' && digits_end(s, e1 + 1) is Some {
        assert(is_digit_char(s[e1 + 1]));
        assert(run_end(s, e1 + 1, digit_pred()) == run_end(s, e1 + 2, digit_pred()));
        lemma_run_end(s, e1 + 2, digit_pred());
        lemma_run_end(s, e1 + 1, digit_pred());
        assert(is_digit_char(s[v2 - 1]));
    } else {
        assert(v2 == e1);
        assert(is_digit_char(s[v2 - 1]));
    }
    let t = s.subrange(v1, v2);
    assert(t[0] == s[v1]);
    assert(t[t.len() - 1] == s[v2 - 1]);
    lemma_trim_noop(t);
}

/// A currency token is its own trim: all three characters are uppercase
/// letters.
proof fn lemma_currency_token_trim(s: Seq<char>, m3: int, m4: int)
    requires
        currency_end(s, m3) == Some(m4),
    ensures
        m3 < m4 <= s.len(),
        trim_seq(s.subrange(m3, m4)) == s.subrange(m3, m4),
{
    let t = s.subrange(m3, m4);
    assert(t[0] == s[m3]);
    assert(t[t.len() - 1] == s[m4 - 1]);
    assert(is_upper_char(s[m3]));
    assert(is_upper_char(s[m4 - 1]));
    lemma_trim_noop(t);
}

/// Extraction from a well-formed book subtree reads the fields straight out
/// of the source text.
proof fn lemma_book_fields(n: ParseNode, s: Seq<char>, r: Book)
    requires
        book_node_ok(n, s),
        from_pair_post(n, r),
    ensures
        book_fields_at(s, n.start as int, r),
{
    let a = n.start as int;
    let t = n.children@[0];
    let p1 = lit_end(s, a, "Book "@).unwrap();
    let p2 = digits_end(s, p1).unwrap();
    let p3 = lit_end(s, p2, ": "@).unwrap();
    let p4 = quoted_end(s, p3).unwrap();
    let e1 = lit_end(s, p4, "\n"@).unwrap();
    let qt = t.children@[2];
    assert(qt.text@ == s.subrange(p3, p4));
    lemma_run_end(s, p3 + 1, nonquote_pred());
    assert(p3 + 2 <= p4);
    assert(strip_quotes(qt.text@) =~= s.subrange(p3 + 1, p4 - 1));

    let au = n.children@[1];
    let a1 = lit_end(s, e1, "Authors: ["@).unwrap();
    assert(child_texts(au) =~= span_texts(s, item_spans(s, a1)));
    let e2 = list_of_authors_end(s, e1).unwrap();

    let ge = n.children@[2];
    let g1 = lit_end(s, e2, "Genres: ["@).unwrap();
    assert(child_texts(ge) =~= span_texts(s, item_spans(s, g1)));
    let e3 = list_of_genres_end(s, e2).unwrap();

    let yn = n.children@[3];
    let y1 = lit_end(s, e3, "Publication Year: "@).unwrap();
    let y2 = year_end(s, y1).unwrap();
    assert(yn.children@[1].text@ == s.subrange(y1, y1 + 4));
    let e4 = publication_year_end(s, e3).unwrap();

    let rn = n.children@[4];
    let v1 = lit_end(s, e4, "Rating: "@).unwrap();
    let v2 = rating_value_end(s, v1).unwrap();
    assert(rn.children@[1].text@ == s.subrange(v1, v2));
    lemma_rating_token_trim(s, v1, v2);
    let e5 = rating_end(s, e4).unwrap();

    let pn = n.children@[5];
    let m1 = lit_end(s, e5, "Price: "@).unwrap();
    let m2 = number_end(s, m1).unwrap();
    let m3 = space_end(s, m2).unwrap();
    let m4 = currency_end(s, m3).unwrap();
    assert(pn.children@[1].text@ == s.subrange(m1, m2));
    assert(pn.children@[3].text@ == s.subrange(m3, m4));
    lemma_number_token_trim(s, m1, m2);
    lemma_currency_token_trim(s, m3, m4);
}

/// Parses a whole document and extracts every book in document order.
/// Succeeds exactly when the `books` rule consumes the entire input; a
/// malformed or truncated document yields a failure and no records.
pub fn parse_books(input: &str) -> (r: Result<Vec<Book>, ParseFailure>)
    ensures
        match r {
            Ok(v) => {
                &&& books_end(input@, 0) is Some
                &&& v@.len() == book_spans(input@, 0).len()
                &&& forall|i: int|
                    0 <= i < v@.len() ==> book_fields_at(
                        input@,
                        book_spans(input@, 0)[i].0,
                        #[trigger] v@[i],
                    )
            },
            Err(f) => books_end(input@, 0) is None && f.rule == Rule::books && f.offset
                <= input@.len(),
        },
{
    let doc = match Grammar::parse(Rule::books, input) {
        Ok(n) => n,
        Err(f) => {
            return Err(f);
        },
    };
    let ghost sp = book_spans(input@, 0);
    let mut out: Vec<Book> = Vec::new();
    let m = doc.children.len();
    let mut i: usize = 0;
    while i < m
        invariant
            0 <= i <= m,
            m == doc.children@.len(),
            books_node_ok(doc, input@),
            doc.start == 0,
            sp == book_spans(input@, 0),
            m == sp.len(),
            out@.len() == i,
            forall|j: int|
                0 <= j < i ==> book_fields_at(input@, sp[j].0, #[trigger] out@[j]),
        decreases m - i,
    {
        let child = &doc.children[i];
        proof {
            assert(book_node_ok(doc.children@[i as int], input@));
            lemma_book_ok_shape(doc.children@[i as int], input@);
        }
        let b = Book::from_pair(child);
        proof {
            lemma_book_fields(doc.children@[i as int], input@, b);
            assert(doc.children@[i as int].start == sp[i as int].0);
        }
        out.push(b);
        i = i + 1;
    }
    Ok(out)
}

} // verus!
