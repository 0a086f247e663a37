//! Library-wide laws, stated and proved once: the accept/reject boundaries
//! of the bounded tokens and the determinism of record extraction.

use vstd::prelude::*;

use crate::extract::{from_pair_post, Book};
use crate::node::ParseNode;
use crate::rules::{
    currency_end, digits_end, frac_digits, frac_end, rating_in_range, rating_value_end,
};
use crate::text::is_upper_char;

verus! {

/// A currency code is accepted exactly when the text starts with three
/// uppercase ASCII letters, and the match is exactly those three letters.
pub proof fn lemma_currency_code(s: Seq<char>)
    ensures
        currency_end(s, 0) is Some <==> (s.len() >= 3 && (forall|k: int|
            0 <= k < 3 ==> is_upper_char(s[k]))),
        currency_end(s, 0) is Some ==> currency_end(s, 0).unwrap() == 3,
{
}

/// A rating token is accepted exactly when it starts with a digit and the
/// token's value lies in [0, 10]: the integer digits read below 10, or read
/// exactly 10 with every fraction digit zero.  An absent token (no leading
/// digit) is rejected, and a value above 10 is rejected by the grammar
/// itself.
pub proof fn lemma_rating_value_boundary(s: Seq<char>, pos: int)
    ensures
        rating_value_end(s, pos) is Some <==> (digits_end(s, pos) matches Some(e1)
            && rating_in_range(s.subrange(pos, e1), frac_digits(s, e1, frac_end(s, e1)))),
        rating_value_end(s, pos) is Some ==> rating_value_end(s, pos).unwrap() == frac_end(
            s,
            digits_end(s, pos).unwrap(),
        ),
{
}

/// Extraction is deterministic: two records extracted from the same book
/// subtree agree on every field, so extracting a node twice yields
/// structurally equal records.
pub proof fn lemma_extract_idempotent(n: ParseNode, a: Book, b: Book)
    requires
        from_pair_post(n, a),
        from_pair_post(n, b),
    ensures
        a.book_title@ == b.book_title@,
        a.authors.deep_view() == b.authors.deep_view(),
        a.genres.deep_view() == b.genres.deep_view(),
        a.publication_year == b.publication_year,
        a.rating@ == b.rating@,
        a.price@ == b.price@,
{
}

} // verus!
