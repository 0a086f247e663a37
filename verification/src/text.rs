//! Character classes and low-level text functions shared by the grammar
//! engine and the record extractor: maximal character runs, digit-sequence
//! values, and whitespace trimming.

use vstd::prelude::*;

verus! {

/// A single whitespace character: space, tab, carriage return or newline.
pub open spec fn is_ws_char(c: char) -> bool {
    c == ' ' || c == '\t' || c == '\r' || c == '\n'
}

/// An ASCII decimal digit.
pub open spec fn is_digit_char(c: char) -> bool {
    48 <= (c as u32) && (c as u32) <= 57
}

/// An ASCII uppercase letter.
pub open spec fn is_upper_char(c: char) -> bool {
    65 <= (c as u32) && (c as u32) <= 90
}

/// A character allowed inside an author or genre item: anything except the
/// list delimiters `[`, `]` and the item separator `,`.
pub open spec fn is_item_char(c: char) -> bool {
    c != '[' && c != ']' && c != ','
}

pub open spec fn ws_pred() -> spec_fn(char) -> bool {
    |c: char| is_ws_char(c)
}

pub open spec fn space_pred() -> spec_fn(char) -> bool {
    |c: char| c == ' '
}

pub open spec fn digit_pred() -> spec_fn(char) -> bool {
    |c: char| is_digit_char(c)
}

pub open spec fn item_pred() -> spec_fn(char) -> bool {
    |c: char| is_item_char(c)
}

pub open spec fn nonquote_pred() -> spec_fn(char) -> bool {
    |c: char| c != '"'
}

/// The end of the maximal run of characters satisfying `p` that starts at
/// `pos`: the first index at or after `pos` whose character fails `p`, or the
/// end of the text.
pub open spec fn run_end(s: Seq<char>, pos: int, p: spec_fn(char) -> bool) -> int
    decreases s.len() - pos,
{
    if 0 <= pos && pos < s.len() && p(s[pos]) {
        run_end(s, pos + 1, p)
    } else {
        pos
    }
}

/// The characteristic properties of `run_end`: it stays within bounds, every
/// character of the run satisfies `p`, and the run is maximal.
pub proof fn lemma_run_end(s: Seq<char>, pos: int, p: spec_fn(char) -> bool)
    requires
        0 <= pos <= s.len(),
    ensures
        pos <= run_end(s, pos, p) <= s.len(),
        forall|k: int| pos <= k < run_end(s, pos, p) ==> p(s[k]),
        run_end(s, pos, p) < s.len() ==> !p(s[run_end(s, pos, p)]),
    decreases s.len() - pos,
{
    if pos < s.len() && p(s[pos]) {
        lemma_run_end(s, pos + 1, p);
    }
}

/// The numeric value of a sequence of decimal digit characters, most
/// significant digit first.
pub open spec fn digits_val(s: Seq<char>) -> int
    decreases s.len(),
{
    if s.len() == 0 {
        0
    } else {
        digits_val(s.drop_last()) * 10 + ((s.last() as u32) - 48)
    }
}

pub open spec fn pow10(n: nat) -> int
    decreases n,
{
    if n == 0 {
        1
    } else {
        10 * pow10((n - 1) as nat)
    }
}

/// `digits_val` capped at 11: enough to decide whether a value is below 10,
/// exactly 10, or larger, without computing arbitrarily large numbers.
pub open spec fn capped_val(s: Seq<char>) -> int {
    if digits_val(s) > 11 {
        11
    } else {
        digits_val(s)
    }
}

/// The start of the maximal run of trailing whitespace that ends at `e`.
pub open spec fn rstrip_end(s: Seq<char>, e: int) -> int
    decreases e,
{
    if 0 < e && e <= s.len() && is_ws_char(s[e - 1]) {
        rstrip_end(s, e - 1)
    } else {
        e
    }
}

/// The text with leading and trailing whitespace removed.
pub open spec fn trim_seq(s: Seq<char>) -> Seq<char> {
    let a = run_end(s, 0, ws_pred());
    let b = rstrip_end(s, s.len() as int);
    if a < b {
        s.subrange(a, b)
    } else {
        Seq::empty()
    }
}

/// Trimming a text whose first and last characters are not whitespace
/// leaves it unchanged.
pub proof fn lemma_trim_noop(t: Seq<char>)
    requires
        t.len() > 0,
        !is_ws_char(t[0]),
        !is_ws_char(t[t.len() - 1]),
    ensures
        trim_seq(t) == t,
{
    assert(!ws_pred()(t[0]));
    assert(run_end(t, 0, ws_pred()) == 0);
    assert(rstrip_end(t, t.len() as int) == t.len());
    assert(t.subrange(0, t.len() as int) =~= t);
}

/// The text with every carriage return removed.
pub open spec fn strip_cr(s: Seq<char>) -> Seq<char>
    decreases s.len(),
{
    if s.len() == 0 {
        Seq::empty()
    } else {
        let rest = strip_cr(s.drop_last());
        if s.last() == '\r' {
            rest
        } else {
            rest.push(s.last())
        }
    }
}

/// Removes every carriage return from `input`, the normalization applied to
/// a raw document before parsing.
pub fn strip_carriage_returns(input: &str) -> (r: String)
    ensures
        r@ == strip_cr(input@),
{
    let n = input.unicode_len();
    let mut out = String::new();
    let mut i: usize = 0;
    while i < n
        invariant
            0 <= i <= n,
            n == input@.len(),
            out@ == strip_cr(input@.take(i as int)),
        decreases n - i,
    {
        let c = input.get_char(i);
        if c != '\r' {
            out.append(input.substring_char(i, i + 1));
            proof {
                assert(input@.subrange(i as int, i + 1 as int) =~= seq![input@[i as int]]);
            }
        }
        proof {
            assert(input@.take(i + 1 as int).drop_last() =~= input@.take(i as int));
            assert(input@.take(i + 1 as int).last() == input@[i as int]);
        }
        i = i + 1;
    }
    proof {
        assert(input@.take(n as int) =~= input@);
    }
    out
}

/// Whether `c` is a whitespace character; the executable counterpart of
/// `is_ws_char`.
pub fn ws_char(c: char) -> (b: bool)
    ensures
        b == is_ws_char(c),
{
    c == ' ' || c == '\t' || c == '\r' || c == '\n'
}

pub fn digit_char(c: char) -> (b: bool)
    ensures
        b == is_digit_char(c),
{
    let u = c as u32;
    48 <= u && u <= 57
}

pub fn upper_char(c: char) -> (b: bool)
    ensures
        b == is_upper_char(c),
{
    let u = c as u32;
    65 <= u && u <= 90
}

pub fn item_char(c: char) -> (b: bool)
    ensures
        b == is_item_char(c),
{
    c != '[' && c != ']' && c != ','
}

/// Scans the maximal run of space characters starting at `pos`.
pub fn scan_spaces(s: &str, pos: usize) -> (r: usize)
    requires
        pos <= s@.len(),
    ensures
        r == run_end(s@, pos as int, space_pred()),
        pos <= r <= s@.len(),
{
    let n = s.unicode_len();
    let mut i = pos;
    loop
        invariant
            pos <= i <= n,
            n == s@.len(),
            run_end(s@, pos as int, space_pred()) == run_end(s@, i as int, space_pred()),
        ensures
            pos <= i <= n,
            i == run_end(s@, pos as int, space_pred()),
        decreases n - i,
    {
        if i >= n {
            proof {
                assert(run_end(s@, i as int, space_pred()) == i);
            }
            break;
        }
        let c = s.get_char(i);
        if c == ' ' {
            proof {
                assert(space_pred()(s@[i as int]));
            }
            i = i + 1;
        } else {
            proof {
                assert(!space_pred()(s@[i as int]));
                assert(run_end(s@, i as int, space_pred()) == i);
            }
            break;
        }
    }
    i
}

/// Scans the maximal run of digit characters starting at `pos`.
pub fn scan_digits(s: &str, pos: usize) -> (r: usize)
    requires
        pos <= s@.len(),
    ensures
        r == run_end(s@, pos as int, digit_pred()),
        pos <= r <= s@.len(),
{
    let n = s.unicode_len();
    let mut i = pos;
    loop
        invariant
            pos <= i <= n,
            n == s@.len(),
            run_end(s@, pos as int, digit_pred()) == run_end(s@, i as int, digit_pred()),
        ensures
            pos <= i <= n,
            i == run_end(s@, pos as int, digit_pred()),
        decreases n - i,
    {
        if i >= n {
            proof {
                assert(run_end(s@, i as int, digit_pred()) == i);
            }
            break;
        }
        let c = s.get_char(i);
        if digit_char(c) {
            proof {
                assert(digit_pred()(s@[i as int]));
            }
            i = i + 1;
        } else {
            proof {
                assert(!digit_pred()(s@[i as int]));
                assert(run_end(s@, i as int, digit_pred()) == i);
            }
            break;
        }
    }
    i
}

/// Scans the maximal run of item characters starting at `pos`.
pub fn scan_item_chars(s: &str, pos: usize) -> (r: usize)
    requires
        pos <= s@.len(),
    ensures
        r == run_end(s@, pos as int, item_pred()),
        pos <= r <= s@.len(),
{
    let n = s.unicode_len();
    let mut i = pos;
    loop
        invariant
            pos <= i <= n,
            n == s@.len(),
            run_end(s@, pos as int, item_pred()) == run_end(s@, i as int, item_pred()),
        ensures
            pos <= i <= n,
            i == run_end(s@, pos as int, item_pred()),
        decreases n - i,
    {
        if i >= n {
            proof {
                assert(run_end(s@, i as int, item_pred()) == i);
            }
            break;
        }
        let c = s.get_char(i);
        if item_char(c) {
            proof {
                assert(item_pred()(s@[i as int]));
            }
            i = i + 1;
        } else {
            proof {
                assert(!item_pred()(s@[i as int]));
                assert(run_end(s@, i as int, item_pred()) == i);
            }
            break;
        }
    }
    i
}

/// Scans the maximal run of non-quote characters starting at `pos`.
pub fn scan_nonquote(s: &str, pos: usize) -> (r: usize)
    requires
        pos <= s@.len(),
    ensures
        r == run_end(s@, pos as int, nonquote_pred()),
        pos <= r <= s@.len(),
{
    let n = s.unicode_len();
    let mut i = pos;
    loop
        invariant
            pos <= i <= n,
            n == s@.len(),
            run_end(s@, pos as int, nonquote_pred()) == run_end(s@, i as int, nonquote_pred()),
        ensures
            pos <= i <= n,
            i == run_end(s@, pos as int, nonquote_pred()),
        decreases n - i,
    {
        if i >= n {
            proof {
                assert(run_end(s@, i as int, nonquote_pred()) == i);
            }
            break;
        }
        let c = s.get_char(i);
        if c != '"' {
            proof {
                assert(nonquote_pred()(s@[i as int]));
            }
            i = i + 1;
        } else {
            proof {
                assert(!nonquote_pred()(s@[i as int]));
                assert(run_end(s@, i as int, nonquote_pred()) == i);
            }
            break;
        }
    }
    i
}

/// Scans the maximal digit run starting at `pos` and returns its end together
/// with the run's value capped at 11.
pub fn scan_digits_capped(s: &str, pos: usize) -> (r: (usize, u32))
    requires
        pos <= s@.len(),
    ensures
        r.0 == run_end(s@, pos as int, digit_pred()),
        pos <= r.0 <= s@.len(),
        r.1 == capped_val(s@.subrange(pos as int, r.0 as int)),
{
    let n = s.unicode_len();
    let mut i = pos;
    let mut v: u32 = 0;
    loop
        invariant
            pos <= i <= n,
            n == s@.len(),
            run_end(s@, pos as int, digit_pred()) == run_end(s@, i as int, digit_pred()),
            v == capped_val(s@.subrange(pos as int, i as int)),
            v <= 11,
        ensures
            pos <= i <= n,
            i == run_end(s@, pos as int, digit_pred()),
            v == capped_val(s@.subrange(pos as int, i as int)),
        decreases n - i,
    {
        if i >= n {
            proof {
                assert(run_end(s@, i as int, digit_pred()) == i);
            }
            break;
        }
        let c = s.get_char(i);
        if digit_char(c) {
            proof {
                assert(digit_pred()(s@[i as int]));
            }
            let d = (c as u32) - 48;
            let w = v * 10 + d;
            let nv = if w > 11 {
                11u32
            } else {
                w
            };
            proof {
                let prev = s@.subrange(pos as int, i as int);
                let cur = s@.subrange(pos as int, i + 1 as int);
                assert(cur.drop_last() =~= prev);
                assert(cur.last() == s@[i as int]);
                assert(digits_val(cur) == digits_val(prev) * 10 + d);
                if v <= 10 {
                    assert(digits_val(prev) == v);
                } else {
                    assert(digits_val(prev) >= 11);
                    assert(digits_val(cur) >= 110);
                }
            }
            v = nv;
            i = i + 1;
        } else {
            proof {
                assert(!digit_pred()(s@[i as int]));
                assert(run_end(s@, i as int, digit_pred()) == i);
            }
            break;
        }
    }
    (i, v)
}

/// Scans the maximal digit run starting at `pos` and reports whether every
/// digit in it is `0`.
pub fn scan_digits_zeros(s: &str, pos: usize) -> (r: (usize, bool))
    requires
        pos <= s@.len(),
    ensures
        r.0 == run_end(s@, pos as int, digit_pred()),
        pos <= r.0 <= s@.len(),
        r.1 == (forall|k: int| pos <= k < r.0 ==> s@[k] == '0'),
{
    let n = s.unicode_len();
    let mut i = pos;
    let mut z = true;
    loop
        invariant
            pos <= i <= n,
            n == s@.len(),
            run_end(s@, pos as int, digit_pred()) == run_end(s@, i as int, digit_pred()),
            z == (forall|k: int| pos <= k < i ==> s@[k] == '0'),
        ensures
            pos <= i <= n,
            i == run_end(s@, pos as int, digit_pred()),
            z == (forall|k: int| pos <= k < i ==> s@[k] == '0'),
        decreases n - i,
    {
        if i >= n {
            proof {
                assert(run_end(s@, i as int, digit_pred()) == i);
            }
            break;
        }
        let c = s.get_char(i);
        if digit_char(c) {
            proof {
                assert(digit_pred()(s@[i as int]));
            }
            z = z && c == '0';
            i = i + 1;
        } else {
            proof {
                assert(!digit_pred()(s@[i as int]));
                assert(run_end(s@, i as int, digit_pred()) == i);
            }
            break;
        }
    }
    (i, z)
}

/// Parses a run of at most four digit characters as an unsigned 16-bit
/// integer.
pub fn parse_u16_digits(s: &str, a: usize, b: usize) -> (v: u16)
    requires
        a <= b <= s@.len(),
        b - a <= 4,
        forall|k: int| a <= k < b ==> is_digit_char(s@[k]),
    ensures
        v == digits_val(s@.subrange(a as int, b as int)),
{
    let mut i = a;
    let mut v: u16 = 0;
    while i < b
        invariant
            a <= i <= b <= s@.len(),
            b - a <= 4,
            forall|k: int| a <= k < b ==> is_digit_char(s@[k]),
            v == digits_val(s@.subrange(a as int, i as int)),
            v < pow10((i - a) as nat),
        decreases b - i,
    {
        let c = s.get_char(i);
        proof {
            let k = i - a;
            assert(pow10(0) == 1);
            assert(pow10(1) == 10);
            assert(pow10(2) == 100);
            assert(pow10(3) == 1000);
            assert(pow10(4) == 10000);
            assert(k == 0 || k == 1 || k == 2 || k == 3);
            assert(pow10(k as nat) <= 1000);
        }
        let d = ((c as u32) - 48) as u16;
        proof {
            let prev = s@.subrange(a as int, i as int);
            let cur = s@.subrange(a as int, i + 1 as int);
            assert(cur.drop_last() =~= prev);
            assert(cur.last() == s@[i as int]);
            assert(digits_val(cur) == digits_val(prev) * 10 + d);
            assert(pow10(((i + 1) - a) as nat) == 10 * pow10((i - a) as nat));
        }
        v = v * 10 + d;
        i = i + 1;
    }
    assert(s@.subrange(a as int, i as int) =~= s@.subrange(a as int, b as int));
    v
}

/// Removes leading and trailing whitespace from `s`, returning an owned copy.
pub fn trim_str(s: &str) -> (r: String)
    ensures
        r@ == trim_seq(s@),
{
    let n = s.unicode_len();
    let mut a: usize = 0;
    loop
        invariant
            0 <= a <= n,
            n == s@.len(),
            run_end(s@, 0, ws_pred()) == run_end(s@, a as int, ws_pred()),
        ensures
            0 <= a <= n,
            a == run_end(s@, 0, ws_pred()),
        decreases n - a,
    {
        if a >= n {
            proof {
                assert(run_end(s@, a as int, ws_pred()) == a);
            }
            break;
        }
        let c = s.get_char(a);
        if ws_char(c) {
            proof {
                assert(ws_pred()(s@[a as int]));
            }
            a = a + 1;
        } else {
            proof {
                assert(!ws_pred()(s@[a as int]));
                assert(run_end(s@, a as int, ws_pred()) == a);
            }
            break;
        }
    }
    let mut b: usize = n;
    loop
        invariant
            0 <= b <= n,
            n == s@.len(),
            rstrip_end(s@, n as int) == rstrip_end(s@, b as int),
        ensures
            0 <= b <= n,
            b == rstrip_end(s@, n as int),
        decreases b,
    {
        if b == 0 {
            proof {
                assert(rstrip_end(s@, b as int) == b);
            }
            break;
        }
        let c = s.get_char(b - 1);
        if ws_char(c) {
            b = b - 1;
        } else {
            proof {
                assert(rstrip_end(s@, b as int) == b);
            }
            break;
        }
    }
    if a < b {
        s.substring_char(a, b).to_owned()
    } else {
        String::new()
    }
}

} // verus!
