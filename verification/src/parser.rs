//! The grammar engine: a recursive-descent matcher for each rule, each
//! proved to accept exactly the texts its rule's specification end function
//! accepts and to build the well-formed tree for the match.

use vstd::prelude::*;

use crate::node::{ParseFailure, ParseNode, Rule};
use crate::rules::{
    book_end, book_spans, book_title_end, books_end, books_final, currency_end, digits_end,
    frac_digits, frac_end, item_end, item_spans, item_spans_tail, items_end, list_end, lit_end,
    number_end, price_end, publication_year_end, quoted_end, rating_end, rating_in_range,
    rating_value_end, rule_end, space_end, whitespace_end, year_end,
};
use crate::text::{
    digit_char, digits_val, is_digit_char, is_upper_char, item_char, scan_digits,
    scan_digits_capped, scan_digits_zeros, scan_item_chars, scan_nonquote, scan_spaces,
    upper_char, ws_char,
};
use crate::tree::{
    book_node_ok, books_node_ok, leaf_at, list_node_ok, price_node_ok, rating_node_ok,
    rule_node_ok, title_node_ok, year_node_ok,
};

verus! {

/// Builds a childless node for rule `r` spanning `[a, b)`.
fn mk_leaf(s: &str, r: Rule, a: usize, b: usize) -> (n: ParseNode)
    requires
        a <= b <= s@.len(),
    ensures
        leaf_at(n, s@, r, a as int, b as int),
{
    ParseNode {
        rule: r,
        start: a,
        end: b,
        text: s.substring_char(a, b).to_owned(),
        children: Vec::new(),
    }
}

/// Matches the fixed text `lit` at `pos`, returning the offset just past it.
fn match_lit(s: &str, pos: usize, lit: &str) -> (r: Option<usize>)
    requires
        pos <= s@.len(),
    ensures
        match r {
            Some(e) => lit_end(s@, pos as int, lit@) == Some(e as int) && pos <= e <= s@.len(),
            None => lit_end(s@, pos as int, lit@) is None,
        },
{
    let n = s.unicode_len();
    let ll = lit.unicode_len();
    if ll > n - pos {
        return None;
    }
    let mut j: usize = 0;
    loop
        invariant
            0 <= j <= ll,
            ll == lit@.len(),
            n == s@.len(),
            pos + ll <= n,
            forall|k: int| 0 <= k < j ==> s@[pos + k] == lit@[k],
        ensures
            0 <= j <= ll,
            j == ll ==> forall|k: int| 0 <= k < ll ==> s@[pos + k] == lit@[k],
            j < ll ==> s@[pos as int + j as int] != lit@[j as int],
        decreases ll - j,
    {
        if j >= ll {
            break;
        }
        if s.get_char(pos + j) != lit.get_char(j) {
            break;
        }
        j = j + 1;
    }
    if j == ll {
        proof {
            assert(s@.subrange(pos as int, pos + ll as int) =~= lit@);
        }
        Some(pos + ll)
    } else {
        proof {
            assert(s@.subrange(pos as int, pos + ll as int)[j as int] == s@[pos + j]);
            assert(s@.subrange(pos as int, pos + ll as int) != lit@);
        }
        None
    }
}

/// Matches one whitespace character.
fn match_whitespace(s: &str, pos: usize) -> (r: Result<ParseNode, usize>)
    requires
        pos <= s@.len(),
    ensures
        match r {
            Ok(n) => whitespace_end(s@, pos as int) == Some(n.end as int) && leaf_at(
                n,
                s@,
                Rule::WHITESPACE,
                pos as int,
                n.end as int,
            ),
            Err(o) => whitespace_end(s@, pos as int) is None && pos <= o <= s@.len(),
        },
{
    let n = s.unicode_len();
    if pos < n && ws_char(s.get_char(pos)) {
        Ok(mk_leaf(s, Rule::WHITESPACE, pos, pos + 1))
    } else {
        Err(pos)
    }
}

/// Matches a run of one or more spaces.
fn match_space(s: &str, pos: usize) -> (r: Result<ParseNode, usize>)
    requires
        pos <= s@.len(),
    ensures
        match r {
            Ok(n) => space_end(s@, pos as int) == Some(n.end as int) && leaf_at(
                n,
                s@,
                Rule::SPACE,
                pos as int,
                n.end as int,
            ),
            Err(o) => space_end(s@, pos as int) is None && pos <= o <= s@.len(),
        },
{
    let n = s.unicode_len();
    if pos < n && s.get_char(pos) == ' ' {
        let e = scan_spaces(s, pos);
        Ok(mk_leaf(s, Rule::SPACE, pos, e))
    } else {
        Err(pos)
    }
}

/// Matches a run of one or more digits, as the `book_num` rule.
fn match_book_num(s: &str, pos: usize) -> (r: Result<ParseNode, usize>)
    requires
        pos <= s@.len(),
    ensures
        match r {
            Ok(n) => digits_end(s@, pos as int) == Some(n.end as int) && leaf_at(
                n,
                s@,
                Rule::book_num,
                pos as int,
                n.end as int,
            ),
            Err(o) => digits_end(s@, pos as int) is None && pos <= o <= s@.len(),
        },
{
    let n = s.unicode_len();
    if pos < n && digit_char(s.get_char(pos)) {
        let e = scan_digits(s, pos);
        Ok(mk_leaf(s, Rule::book_num, pos, e))
    } else {
        Err(pos)
    }
}

/// Matches exactly four digits.
fn match_year(s: &str, pos: usize) -> (r: Result<ParseNode, usize>)
    requires
        pos <= s@.len(),
    ensures
        match r {
            Ok(n) => year_end(s@, pos as int) == Some(n.end as int) && leaf_at(
                n,
                s@,
                Rule::year,
                pos as int,
                n.end as int,
            ),
            Err(o) => year_end(s@, pos as int) is None && pos <= o <= s@.len(),
        },
{
    let n = s.unicode_len();
    if pos < n && n - pos >= 4 {
        let d0 = digit_char(s.get_char(pos));
        let d1 = digit_char(s.get_char(pos + 1));
        let d2 = digit_char(s.get_char(pos + 2));
        let d3 = digit_char(s.get_char(pos + 3));
        if d0 && d1 && d2 && d3 {
            proof {
                assert forall|k: int| pos <= k < pos + 4 implies is_digit_char(s@[k]) by {
                    assert(k == pos || k == pos + 1 || k == pos + 2 || k == pos + 3);
                }
            }
            Ok(mk_leaf(s, Rule::year, pos, pos + 4))
        } else {
            Err(pos)
        }
    } else {
        Err(pos)
    }
}

/// Matches an optionally negative decimal number.
fn match_number(s: &str, pos: usize) -> (r: Result<ParseNode, usize>)
    requires
        pos <= s@.len(),
    ensures
        match r {
            Ok(n) => number_end(s@, pos as int) == Some(n.end as int) && leaf_at(
                n,
                s@,
                Rule::number,
                pos as int,
                n.end as int,
            ),
            Err(o) => number_end(s@, pos as int) is None && pos <= o <= s@.len(),
        },
{
    let n = s.unicode_len();
    let q = if pos < n && s.get_char(pos) == '-' {
        pos + 1
    } else {
        pos
    };
    if q < n && digit_char(s.get_char(q)) {
        let e1 = scan_digits(s, q);
        let e = match_frac(s, e1);
        Ok(mk_leaf(s, Rule::number, pos, e))
    } else {
        Err(pos)
    }
}

/// Matches the optional fraction part after an integer part ending at `e1`.
fn match_frac(s: &str, e1: usize) -> (e: usize)
    requires
        e1 <= s@.len(),
    ensures
        e == frac_end(s@, e1 as int),
        e1 <= e <= s@.len(),
{
    let n = s.unicode_len();
    if e1 < n && s.get_char(e1) == '.' {
        if e1 + 1 < n && digit_char(s.get_char(e1 + 1)) {
            scan_digits(s, e1 + 1)
        } else {
            e1
        }
    } else {
        e1
    }
}

/// Matches a rating value: digits with an optional fraction, with the value
/// bounded by 10.
fn match_rating_value(s: &str, pos: usize) -> (r: Result<ParseNode, usize>)
    requires
        pos <= s@.len(),
    ensures
        match r {
            Ok(n) => rating_value_end(s@, pos as int) == Some(n.end as int) && leaf_at(
                n,
                s@,
                Rule::rating_value,
                pos as int,
                n.end as int,
            ),
            Err(o) => rating_value_end(s@, pos as int) is None && pos <= o <= s@.len(),
        },
{
    let n = s.unicode_len();
    if pos < n && digit_char(s.get_char(pos)) {
        let (e1, cv) = scan_digits_capped(s, pos);
        let ghost ip = s@.subrange(pos as int, e1 as int);
        let (e2, zeros) = if e1 < n && s.get_char(e1) == '.' && e1 + 1 < n && digit_char(
            s.get_char(e1 + 1),
        ) {
            scan_digits_zeros(s, e1 + 1)
        } else {
            (e1, true)
        };
        proof {
            assert(e2 == frac_end(s@, e1 as int));
        }
        let ghost fp = frac_digits(s@, e1 as int, e2 as int);
        proof {
            if e2 > e1 {
                assert(fp =~= s@.subrange(e1 + 1 as int, e2 as int));
                if zeros {
                    assert forall|k: int| 0 <= k < fp.len() implies fp[k] == '0' by {
                        assert(fp[k] == s@[e1 + 1 + k]);
                    }
                } else {
                    let k0 = choose|k: int| e1 + 1 <= k < e2 && s@[k] != '0';
                    assert(fp[k0 - (e1 + 1)] == s@[k0]);
                    assert(!(forall|k: int| 0 <= k < fp.len() ==> fp[k] == '0'));
                }
            }
            assert(zeros == (forall|k: int| 0 <= k < fp.len() ==> fp[k] == '0'));
            if cv <= 10 {
                assert(digits_val(ip) == cv);
            } else {
                assert(digits_val(ip) >= 11);
            }
        }
        if cv < 10 || (cv == 10 && zeros) {
            proof {
                assert(rating_in_range(ip, fp));
            }
            Ok(mk_leaf(s, Rule::rating_value, pos, e2))
        } else {
            proof {
                assert(!rating_in_range(ip, fp));
            }
            Err(pos)
        }
    } else {
        Err(pos)
    }
}

/// Matches a double-quoted run of non-quote characters.
fn match_quoted(s: &str, pos: usize) -> (r: Result<ParseNode, usize>)
    requires
        pos <= s@.len(),
    ensures
        match r {
            Ok(n) => quoted_end(s@, pos as int) == Some(n.end as int) && leaf_at(
                n,
                s@,
                Rule::quoted_text,
                pos as int,
                n.end as int,
            ),
            Err(o) => quoted_end(s@, pos as int) is None && pos <= o <= s@.len(),
        },
{
    let n = s.unicode_len();
    if pos < n && s.get_char(pos) == '"' {
        let q = scan_nonquote(s, pos + 1);
        if q < n {
            Ok(mk_leaf(s, Rule::quoted_text, pos, q + 1))
        } else {
            Err(q)
        }
    } else {
        Err(pos)
    }
}

/// Matches exactly three uppercase ASCII letters.
fn match_currency(s: &str, pos: usize) -> (r: Result<ParseNode, usize>)
    requires
        pos <= s@.len(),
    ensures
        match r {
            Ok(n) => currency_end(s@, pos as int) == Some(n.end as int) && leaf_at(
                n,
                s@,
                Rule::currency,
                pos as int,
                n.end as int,
            ),
            Err(o) => currency_end(s@, pos as int) is None && pos <= o <= s@.len(),
        },
{
    let n = s.unicode_len();
    if pos < n && n - pos >= 3 {
        let u0 = upper_char(s.get_char(pos));
        let u1 = upper_char(s.get_char(pos + 1));
        let u2 = upper_char(s.get_char(pos + 2));
        if u0 && u1 && u2 {
            proof {
                assert forall|k: int| pos <= k < pos + 3 implies is_upper_char(s@[k]) by {
                    assert(k == pos || k == pos + 1 || k == pos + 2);
                }
            }
            Ok(mk_leaf(s, Rule::currency, pos, pos + 3))
        } else {
            Err(pos)
        }
    } else {
        Err(pos)
    }
}

/// Matches one author or genre item: a nonempty run of item characters.
fn match_item(s: &str, pos: usize, r: Rule) -> (res: Result<ParseNode, usize>)
    requires
        pos <= s@.len(),
    ensures
        match res {
            Ok(n) => item_end(s@, pos as int) == Some(n.end as int) && leaf_at(
                n,
                s@,
                r,
                pos as int,
                n.end as int,
            ),
            Err(o) => item_end(s@, pos as int) is None && pos <= o <= s@.len(),
        },
{
    let n = s.unicode_len();
    if pos < n && item_char(s.get_char(pos)) {
        let e = scan_item_chars(s, pos);
        Ok(mk_leaf(s, r, pos, e))
    } else {
        Err(pos)
    }
}

/// Matches a `book_title` line and builds its subtree.
fn match_book_title(s: &str, pos: usize) -> (r: Result<ParseNode, usize>)
    requires
        pos <= s@.len(),
    ensures
        match r {
            Ok(n) => book_title_end(s@, pos as int) == Some(n.end as int) && n.start == pos
                && title_node_ok(n, s@),
            Err(o) => book_title_end(s@, pos as int) is None && pos <= o <= s@.len(),
        },
{
    let p1 = match match_lit(s, pos, "Book ") {
        Some(x) => x,
        None => {
            return Err(pos);
        },
    };
    let num = match match_book_num(s, p1) {
        Ok(x) => x,
        Err(o) => {
            return Err(o);
        },
    };
    let p2 = num.end;
    let p3 = match match_lit(s, p2, ": ") {
        Some(x) => x,
        None => {
            return Err(p2);
        },
    };
    let quoted = match match_quoted(s, p3) {
        Ok(x) => x,
        Err(o) => {
            return Err(o);
        },
    };
    let p4 = quoted.end;
    let p5 = match match_lit(s, p4, "\n") {
        Some(x) => x,
        None => {
            return Err(p4);
        },
    };
    let lab = mk_leaf(s, Rule::label, pos, p1);
    let mut children: Vec<ParseNode> = Vec::new();
    children.push(lab);
    children.push(num);
    children.push(quoted);
    let text = s.substring_char(pos, p5).to_owned();
    Ok(ParseNode { rule: Rule::book_title, start: pos, end: p5, text, children })
}

/// Matches a list line (`Authors: [...]` or `Genres: [...]`) and builds its
/// subtree, one child per item.
fn match_list(s: &str, pos: usize, r: Rule, item_rule: Rule, lit: &str) -> (res: Result<
    ParseNode,
    usize,
>)
    requires
        pos <= s@.len(),
    ensures
        match res {
            Ok(n) => list_end(s@, pos as int, lit@) == Some(n.end as int) && n.start == pos
                && list_node_ok(n, s@, r, item_rule, lit@),
            Err(o) => list_end(s@, pos as int, lit@) is None && pos <= o <= s@.len(),
        },
{
    let p1 = match match_lit(s, pos, lit) {
        Some(x) => x,
        None => {
            return Err(pos);
        },
    };
    let ghost sp = item_spans(s@, p1 as int);
    let mut children: Vec<ParseNode> = Vec::new();
    let mut e = p1;
    let n0 = s.unicode_len();
    if e < n0 && item_char(s.get_char(e)) {
        let first = match match_item(s, e, item_rule) {
            Ok(x) => x,
            Err(o) => {
                proof {
                    assert(false);
                }
                return Err(o);
            },
        };
        e = first.end;
        children.push(first);
        proof {
            assert(sp == seq![(p1 as int, e as int)] + item_spans_tail(s@, e as int));
            assert(sp[0] == (p1 as int, e as int));
            assert(sp.skip(1) =~= item_spans_tail(s@, e as int));
        }
        loop
            invariant
                p1 <= e <= s@.len(),
                n0 == s@.len(),
                sp == item_spans(s@, p1 as int),
                1 <= children@.len() <= sp.len(),
                forall|i: int|
                    0 <= i < children@.len() ==> leaf_at(
                        #[trigger] children@[i],
                        s@,
                        item_rule,
                        sp[i].0,
                        sp[i].1,
                    ),
                sp.skip(children@.len() as int) == item_spans_tail(s@, e as int),
                e == sp[children@.len() - 1].1,
            ensures
                p1 <= e <= s@.len(),
                children@.len() == sp.len(),
                forall|i: int|
                    0 <= i < sp.len() ==> leaf_at(
                        #[trigger] children@[i],
                        s@,
                        item_rule,
                        sp[i].0,
                        sp[i].1,
                    ),
                e == items_end(s@, p1 as int),
            decreases s@.len() - e,
        {
            let more = if e < n0 && e + 1 < n0 {
                s.get_char(e) == ',' && item_char(s.get_char(e + 1))
            } else {
                false
            };
            if !more {
                proof {
                    assert(item_spans_tail(s@, e as int) =~= Seq::<(int, int)>::empty());
                    assert(sp.skip(children@.len() as int).len() == 0);
                    assert(children@.len() == sp.len());
                    assert(sp.len() > 0);
                    assert(e == sp.last().1);
                    assert(e == items_end(s@, p1 as int));
                }
                break;
            }
            let it = match match_item(s, e + 1, item_rule) {
                Ok(x) => x,
                Err(o) => {
                    proof {
                        assert(false);
                    }
                    return Err(o);
                },
            };
            proof {
                let k = children@.len() as int;
                assert(item_spans_tail(s@, e as int) == seq![(e + 1 as int, it.end as int)]
                    + item_spans_tail(s@, it.end as int));
                assert(sp.skip(k)[0] == (e + 1 as int, it.end as int));
                assert(sp[k] == sp.skip(k)[0]);
                assert(sp.skip(k + 1) =~= sp.skip(k).skip(1));
                assert(sp.skip(k).skip(1) =~= item_spans_tail(s@, it.end as int));
                assert(k + 1 <= sp.len());
            }
            e = it.end;
            children.push(it);
        }
    } else {
        proof {
            assert(item_end(s@, p1 as int) is None);
            assert(sp =~= Seq::<(int, int)>::empty());
        }
    }
    let p2 = match match_lit(s, e, "]") {
        Some(x) => x,
        None => {
            return Err(e);
        },
    };
    let p3 = match match_lit(s, p2, "\n") {
        Some(x) => x,
        None => {
            return Err(p2);
        },
    };
    let text = s.substring_char(pos, p3).to_owned();
    Ok(ParseNode { rule: r, start: pos, end: p3, text, children })
}

/// Matches a `Publication Year: ` line and builds its subtree.
fn match_publication_year(s: &str, pos: usize) -> (r: Result<ParseNode, usize>)
    requires
        pos <= s@.len(),
    ensures
        match r {
            Ok(n) => publication_year_end(s@, pos as int) == Some(n.end as int) && n.start == pos
                && year_node_ok(n, s@),
            Err(o) => publication_year_end(s@, pos as int) is None && pos <= o <= s@.len(),
        },
{
    let p1 = match match_lit(s, pos, "Publication Year: ") {
        Some(x) => x,
        None => {
            return Err(pos);
        },
    };
    let yr = match match_year(s, p1) {
        Ok(x) => x,
        Err(o) => {
            return Err(o);
        },
    };
    let p2 = yr.end;
    let p3 = match match_lit(s, p2, "\n") {
        Some(x) => x,
        None => {
            return Err(p2);
        },
    };
    let lab = mk_leaf(s, Rule::label, pos, p1);
    let mut children: Vec<ParseNode> = Vec::new();
    children.push(lab);
    children.push(yr);
    let text = s.substring_char(pos, p3).to_owned();
    Ok(ParseNode { rule: Rule::publication_year, start: pos, end: p3, text, children })
}

/// Matches a `Rating: ` line and builds its subtree.
fn match_rating(s: &str, pos: usize) -> (r: Result<ParseNode, usize>)
    requires
        pos <= s@.len(),
    ensures
        match r {
            Ok(n) => rating_end(s@, pos as int) == Some(n.end as int) && n.start == pos
                && rating_node_ok(n, s@),
            Err(o) => rating_end(s@, pos as int) is None && pos <= o <= s@.len(),
        },
{
    let p1 = match match_lit(s, pos, "Rating: ") {
        Some(x) => x,
        None => {
            return Err(pos);
        },
    };
    let rv = match match_rating_value(s, p1) {
        Ok(x) => x,
        Err(o) => {
            return Err(o);
        },
    };
    let p2 = rv.end;
    let p3 = match match_lit(s, p2, "\n") {
        Some(x) => x,
        None => {
            return Err(p2);
        },
    };
    let lab = mk_leaf(s, Rule::label, pos, p1);
    let mut children: Vec<ParseNode> = Vec::new();
    children.push(lab);
    children.push(rv);
    let text = s.substring_char(pos, p3).to_owned();
    Ok(ParseNode { rule: Rule::rating, start: pos, end: p3, text, children })
}

/// Matches a `Price: ` line and builds its subtree.
fn match_price(s: &str, pos: usize) -> (r: Result<ParseNode, usize>)
    requires
        pos <= s@.len(),
    ensures
        match r {
            Ok(n) => price_end(s@, pos as int) == Some(n.end as int) && n.start == pos
                && price_node_ok(n, s@),
            Err(o) => price_end(s@, pos as int) is None && pos <= o <= s@.len(),
        },
{
    let p1 = match match_lit(s, pos, "Price: ") {
        Some(x) => x,
        None => {
            return Err(pos);
        },
    };
    let amount = match match_number(s, p1) {
        Ok(x) => x,
        Err(o) => {
            return Err(o);
        },
    };
    let p2 = amount.end;
    let gap = match match_space(s, p2) {
        Ok(x) => x,
        Err(o) => {
            return Err(o);
        },
    };
    let p3 = gap.end;
    let cur = match match_currency(s, p3) {
        Ok(x) => x,
        Err(o) => {
            return Err(o);
        },
    };
    let p4 = cur.end;
    let p5 = match match_lit(s, p4, "\n") {
        Some(x) => x,
        None => {
            return Err(p4);
        },
    };
    let lab = mk_leaf(s, Rule::label, pos, p1);
    let mut children: Vec<ParseNode> = Vec::new();
    children.push(lab);
    children.push(amount);
    children.push(gap);
    children.push(cur);
    let text = s.substring_char(pos, p5).to_owned();
    Ok(ParseNode { rule: Rule::price, start: pos, end: p5, text, children })
}

/// Matches one book: its six field lines in fixed order.
fn match_book(s: &str, pos: usize) -> (r: Result<ParseNode, usize>)
    requires
        pos <= s@.len(),
    ensures
        match r {
            Ok(n) => book_end(s@, pos as int) == Some(n.end as int) && n.start == pos
                && book_node_ok(n, s@),
            Err(o) => book_end(s@, pos as int) is None && pos <= o <= s@.len(),
        },
{
    let title = match match_book_title(s, pos) {
        Ok(x) => x,
        Err(o) => {
            return Err(o);
        },
    };
    let authors = match match_list(s, title.end, Rule::list_of_authors, Rule::author, "Authors: [")
    {
        Ok(x) => x,
        Err(o) => {
            return Err(o);
        },
    };
    let genres = match match_list(s, authors.end, Rule::list_of_genres, Rule::genre_item, "Genres: [")
    {
        Ok(x) => x,
        Err(o) => {
            return Err(o);
        },
    };
    let yearline = match match_publication_year(s, genres.end) {
        Ok(x) => x,
        Err(o) => {
            return Err(o);
        },
    };
    let ratingline = match match_rating(s, yearline.end) {
        Ok(x) => x,
        Err(o) => {
            return Err(o);
        },
    };
    let priceline = match match_price(s, ratingline.end) {
        Ok(x) => x,
        Err(o) => {
            return Err(o);
        },
    };
    let e6 = priceline.end;
    let mut children: Vec<ParseNode> = Vec::new();
    children.push(title);
    children.push(authors);
    children.push(genres);
    children.push(yearline);
    children.push(ratingline);
    children.push(priceline);
    let text = s.substring_char(pos, e6).to_owned();
    Ok(ParseNode { rule: Rule::book, start: pos, end: e6, text, children })
}

/// Matches a whole document: one or more books, each optionally followed by
/// one blank line, consuming the entire input.
#[verifier::rlimit(100)]
fn match_books(s: &str, pos: usize) -> (r: Result<ParseNode, usize>)
    requires
        pos <= s@.len(),
    ensures
        match r {
            Ok(n) => books_end(s@, pos as int) == Some(n.end as int) && n.start == pos
                && books_node_ok(n, s@),
            Err(o) => books_end(s@, pos as int) is None && pos <= o <= s@.len(),
        },
{
    let ghost sp = book_spans(s@, pos as int);
    let first = match match_book(s, pos) {
        Ok(x) => x,
        Err(o) => {
            return Err(o);
        },
    };
    let mut children: Vec<ParseNode> = Vec::new();
    let mut e = first.end;
    children.push(first);
    proof {
        assert(sp == seq![(pos as int, e as int)] + crate::rules::book_spans_tail(s@, e as int));
        assert(sp[0] == (pos as int, e as int));
        assert(sp.skip(1) =~= crate::rules::book_spans_tail(s@, e as int));
    }
    let n0 = s.unicode_len();
    loop
        invariant
            pos <= e <= s@.len(),
            n0 == s@.len(),
            sp == book_spans(s@, pos as int),
            1 <= children@.len() <= sp.len(),
            forall|i: int|
                0 <= i < children@.len() ==> (#[trigger] children@[i]).start == sp[i].0
                    && children@[i].end == sp[i].1 && book_node_ok(children@[i], s@),
            sp.skip(children@.len() as int) == crate::rules::book_spans_tail(s@, e as int),
            e == sp[children@.len() - 1].1,
        ensures
            pos <= e <= s@.len(),
            children@.len() == sp.len(),
            forall|i: int|
                0 <= i < sp.len() ==> (#[trigger] children@[i]).start == sp[i].0
                    && children@[i].end == sp[i].1 && book_node_ok(children@[i], s@),
            e == sp.last().1,
        decreases s@.len() - e,
    {
        let p = if e < n0 && s.get_char(e) == '\n' {
            e + 1
        } else {
            e
        };
        match match_book(s, p) {
            Ok(b) => {
                proof {
                    let k = children@.len() as int;
                    crate::rules::lemma_book_end_advances(s@, p as int);
                    assert(crate::rules::book_spans_tail(s@, e as int) == seq![
                        (p as int, b.end as int),
                    ] + crate::rules::book_spans_tail(s@, b.end as int));
                    assert(sp.skip(k)[0] == (p as int, b.end as int));
                    assert(sp[k] == sp.skip(k)[0]);
                    assert(sp.skip(k + 1) =~= sp.skip(k).skip(1));
                    assert(sp.skip(k).skip(1) =~= crate::rules::book_spans_tail(
                        s@,
                        b.end as int,
                    ));
                    assert(k + 1 <= sp.len());
                }
                e = b.end;
                children.push(b);
            },
            Err(_) => {
                proof {
                    assert(crate::rules::book_spans_tail(s@, e as int) =~= Seq::<(int,
                        int,
                    )>::empty());
                    assert(sp.skip(children@.len() as int).len() == 0);
                    assert(children@.len() == sp.len());
                    assert(e == sp.last().1);
                }
                break;
            },
        }
    }
    let fin = if e < n0 && s.get_char(e) == '\n' {
        e + 1
    } else {
        e
    };
    proof {
        assert(fin == books_final(s@, e as int));
    }
    if fin == n0 {
        let text = s.substring_char(pos, fin).to_owned();
        Ok(ParseNode { rule: Rule::books, start: pos, end: fin, text, children })
    } else {
        Err(fin)
    }
}

/// The grammar engine's entry point.
pub struct Grammar;

impl Grammar {
    /// Matches `rule` against `input`, returning the rule's parse tree or a
    /// failure naming the rule and the offset at which matching stopped.
    ///
    /// The `books` rule must consume the entire input; every other rule
    /// matches a prefix of it, greedily.  The result is `Ok` exactly when
    /// `rule_end(rule, input@, 0)` holds an end offset, and the returned
    /// tree is then the well-formed tree of that match.
    pub fn parse(rule: Rule, input: &str) -> (r: Result<ParseNode, ParseFailure>)
        ensures
            match r {
                Ok(n) => rule_end(rule, input@, 0) == Some(n.end as int) && n.start == 0
                    && rule_node_ok(rule, n, input@),
                Err(f) => rule_end(rule, input@, 0) is None && f.rule == rule && f.offset
                    <= input@.len(),
            },
    {
        let res: Result<ParseNode, usize> = match rule {
            Rule::WHITESPACE => match_whitespace(input, 0),
            Rule::SPACE => match_space(input, 0),
            Rule::book_num => match_book_num(input, 0),
            Rule::year => match_year(input, 0),
            Rule::number => match_number(input, 0),
            Rule::rating_value => match_rating_value(input, 0),
            Rule::quoted_text => match_quoted(input, 0),
            Rule::currency => match_currency(input, 0),
            Rule::author => match_item(input, 0, Rule::author),
            Rule::genre_item => match_item(input, 0, Rule::genre_item),
            Rule::list_of_authors => match_list(
                input,
                0,
                Rule::list_of_authors,
                Rule::author,
                "Authors: [",
            ),
            Rule::list_of_genres => match_list(
                input,
                0,
                Rule::list_of_genres,
                Rule::genre_item,
                "Genres: [",
            ),
            Rule::book_title => match_book_title(input, 0),
            Rule::publication_year => match_publication_year(input, 0),
            Rule::rating => match_rating(input, 0),
            Rule::price => match_price(input, 0),
            Rule::book => match_book(input, 0),
            Rule::books => match_books(input, 0),
            Rule::label => Err(0),
        };
        match res {
            Ok(n) => Ok(n),
            Err(o) => Err(ParseFailure { rule, offset: o }),
        }
    }
}

} // verus!
