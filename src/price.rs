//! The three-tier price and the parser for its text form, such as
//! `"Preis 2,50/3,80/4,90"`.

use vstd::prelude::*;
use crate::text::{chars_of, trim, trim_str};

verus! {

/// A price in cents for students, staff ("medium") and guests ("expensive").
#[derive(Clone, Copy, Debug, PartialEq, Eq, Structural)]
pub struct MealPrice {
    pub student: u64,
    pub medium: u64,
    pub expensive: u64,
}

pub open spec fn is_digit(c: char) -> bool {
    '0' <= c && c <= '9'
}

pub open spec fn digit_value(c: char) -> nat {
    (c as u32 - '0' as u32) as nat
}

pub open spec fn all_digits(s: Seq<char>) -> bool {
    forall|i: int| 0 <= i < s.len() ==> is_digit(#[trigger] s[i])
}

/// The number that a string of decimal digits denotes.
pub open spec fn digits_value(s: Seq<char>) -> nat
    decreases s.len(),
{
    if s.len() == 0 {
        0
    } else {
        digits_value(s.drop_last()) * 10 + digit_value(s.last())
    }
}

/// A decimal separator: a point, or a comma, which is read as a point.
pub open spec fn is_point(c: char) -> bool {
    c == '.' || c == ','
}

/// `s` is digits, a separator at `k`, and digits.
pub open spec fn point_at(s: Seq<char>, k: int) -> bool {
    0 <= k < s.len() && is_point(s[k]) && all_digits(s.take(k)) && all_digits(s.skip(k + 1))
}

/// An unsigned decimal number with at least one digit and at most one
/// separator. Exponents and the words `inf` and `NaN` are not amounts.
pub open spec fn is_amount(s: Seq<char>) -> bool {
    (s.len() > 0 && all_digits(s)) || (s.len() > 1 && exists|k: int| point_at(s, k))
}

pub open spec fn is_sign(c: char) -> bool {
    c == '+' || c == '-'
}

/// An amount with an optional leading sign.
pub open spec fn is_signed_amount(s: Seq<char>) -> bool {
    if s.len() > 0 && is_sign(s[0]) {
        is_amount(s.drop_first())
    } else {
        is_amount(s)
    }
}

/// The cents of a signed amount: a negative amount counts as zero, as an
/// amount below zero cannot be held in cents.
pub open spec fn signed_cents(s: Seq<char>) -> u64 {
    if s.len() > 0 && s[0] == '-' {
        0
    } else if s.len() > 0 && s[0] == '+' {
        cents(s.drop_first())
    } else {
        cents(s)
    }
}

/// The first two digits after the separator, as cents.
pub open spec fn fraction_cents(f: Seq<char>) -> nat {
    (if f.len() > 0 {
        digit_value(f[0]) * 10
    } else {
        0
    }) + (if f.len() > 1 {
        digit_value(f[1])
    } else {
        0
    })
}

/// An amount times one hundred, truncated toward zero. The amount is read as
/// an exact decimal, so no cent is lost to binary rounding: `"2,55"` gives 255,
/// where multiplying the nearest `f64` by 100 and truncating would give 254.
pub open spec fn exact_cents(s: Seq<char>) -> nat {
    if all_digits(s) {
        digits_value(s) * 100
    } else {
        let k = choose|k: int| point_at(s, k);
        digits_value(s.take(k)) * 100 + fraction_cents(s.skip(k + 1))
    }
}

/// The cents of an amount, saturated at the largest `u64`.
pub open spec fn cents(s: Seq<char>) -> u64 {
    if exact_cents(s) > u64::MAX {
        u64::MAX
    } else {
        exact_cents(s) as u64
    }
}

/// `s` splits at `c` into the pieces between its occurrences (as `str::split`).
pub open spec fn split_on(s: Seq<char>, c: char) -> Seq<Seq<char>>
    decreases s.len(),
{
    if s.len() == 0 {
        seq![Seq::empty()]
    } else {
        let p = split_on(s.drop_last(), c);
        if s.last() == c {
            p.push(Seq::empty())
        } else {
            p.update(p.len() - 1, p.last().push(s.last()))
        }
    }
}

pub open spec fn first_space_at(s: Seq<char>, k: int) -> bool {
    0 <= k < s.len() && s[k] == ' ' && forall|j: int| 0 <= j < k ==> s[j] != ' '
}

/// The price that a text denotes: after trimming, a label, a space, and
/// `/`-separated amounts, of which there are at least three and all of which
/// must be well formed; the first three are the student, staff and guest price.
pub open spec fn price_of(s: Seq<char>) -> Option<MealPrice> {
    let t = trim(s);
    if exists|k: int| first_space_at(t, k) {
        let k = choose|k: int| first_space_at(t, k);
        let ps = split_on(t.skip(k + 1), '/');
        if ps.len() >= 3 && forall|i: int| 0 <= i < ps.len() ==> is_signed_amount(#[trigger] ps[i]) {
            Some(
                MealPrice {
                    student: signed_cents(ps[0]),
                    medium: signed_cents(ps[1]),
                    expensive: signed_cents(ps[2]),
                },
            )
        } else {
            None
        }
    } else {
        None
    }
}

/// One more than the largest whole amount whose cents fit in a `u64`.
const WHOLE_LIMIT: u64 = 184467440737095517;

fn is_digit_char(c: char) -> (r: bool)
    ensures
        r == is_digit(c),
{
    '0' <= c && c <= '9'
}

fn is_point_char(c: char) -> (r: bool)
    ensures
        r == is_point(c),
{
    c == '.' || c == ','
}

fn digit_of(c: char) -> (r: u64)
    requires
        is_digit(c),
    ensures
        r == digit_value(c),
        r <= 9,
{
    (c as u32 - '0' as u32) as u64
}

proof fn lemma_digits_step(s: Seq<char>, i: int)
    requires
        0 <= i < s.len(),
    ensures
        digits_value(s.take(i + 1)) == digits_value(s.take(i)) * 10 + digit_value(s[i]),
{
    assert(s.take(i + 1).drop_last() =~= s.take(i));
}

/// The cents of a piece, or `None` where it is no amount.
fn amount(p: &Vec<char>) -> (r: Option<u64>)
    ensures
        r == (if is_amount(p@) {
            Some(cents(p@))
        } else {
            None::<u64>
        }),
{
    let n = p.len();
    let mut i: usize = 0;
    let mut whole: u64 = 0;
    assert(p@.take(0) =~= Seq::<char>::empty());
    while i < n && is_digit_char(p[i])
        invariant
            n == p.len(),
            i <= n,
            all_digits(p@.take(i as int)),
            whole == (if digits_value(p@.take(i as int)) >= WHOLE_LIMIT {
                WHOLE_LIMIT as nat
            } else {
                digits_value(p@.take(i as int))
            }),
        decreases n - i,
    {
        let d = digit_of(p[i]);
        proof {
            lemma_digits_step(p@, i as int);
            assert(p@.take(i + 1) =~= p@.take(i as int).push(p@[i as int]));
        }
        if whole < WHOLE_LIMIT {
            let w = whole * 10 + d;
            whole = if w > WHOLE_LIMIT {
                WHOLE_LIMIT
            } else {
                w
            };
        }
        i = i + 1;
    }
    if i == n {
        if n == 0 {
            return None;
        }
        assert(p@.take(n as int) =~= p@);
        assert(all_digits(p@));
        if whole >= WHOLE_LIMIT {
            return Some(u64::MAX);
        }
        return Some(whole * 100);
    }
    if !is_point_char(p[i]) {
        assert(!all_digits(p@));
        assert forall|k: int| !point_at(p@, k) by {
            if 0 <= k < p@.len() && k > i {
                assert(p@.take(k)[i as int] == p@[i as int]);
            } else if 0 <= k < i {
                assert(p@.take(i as int)[k] == p@[k]);
            }
        }
        return None;
    }
    assert(!is_digit(p@[i as int]));
    assert(!all_digits(p@));
    assert forall|k: int| point_at(p@, k) implies k == i by {
        if k > i {
            assert(p@.take(k)[i as int] == p@[i as int]);
        } else if k < i {
            assert(p@.take(i as int)[k] == p@[k]);
        }
    }
    let mut j: usize = i + 1;
    while j < n
        invariant
            n == p.len(),
            i < j <= n,
            !all_digits(p@),
            forall|k: int| point_at(p@, k) ==> k == i,
            forall|m: int| i < m < j ==> is_digit(#[trigger] p@[m]),
        decreases n - j,
    {
        if !is_digit_char(p[j]) {
            assert(p@.skip(i + 1)[j - i - 1] == p@[j as int]);
            assert(!point_at(p@, i as int));
            return None;
        }
        j = j + 1;
    }
    assert(point_at(p@, i as int));
    if n == 1 {
        return None;
    }
    let f1: u64 = if n - i > 1 {
        digit_of(p[i + 1]) * 10
    } else {
        0
    };
    let f2: u64 = if n - i > 2 {
        digit_of(p[i + 2])
    } else {
        0
    };
    assert(fraction_cents(p@.skip(i + 1)) == f1 + f2);
    if whole >= WHOLE_LIMIT {
        return Some(u64::MAX);
    }
    let base = whole * 100;
    if base > u64::MAX - (f1 + f2) {
        Some(u64::MAX)
    } else {
        Some(base + f1 + f2)
    }
}

/// The cents of a piece that may start with a sign, or `None` where it is no amount.
fn signed_amount(p: &Vec<char>) -> (r: Option<u64>)
    ensures
        r == (if is_signed_amount(p@) {
            Some(signed_cents(p@))
        } else {
            None::<u64>
        }),
{
    if p.len() > 0 && (p[0] == '+' || p[0] == '-') {
        let mut q: Vec<char> = Vec::new();
        let mut i: usize = 1;
        while i < p.len()
            invariant
                1 <= i <= p.len(),
                q@ == p@.subrange(1, i as int),
            decreases p.len() - i,
        {
            q.push(p[i]);
            i = i + 1;
            assert(q@ =~= p@.subrange(1, i as int));
        }
        assert(q@ =~= p@.drop_first());
        let a = amount(&q);
        if p[0] == '-' {
            match a {
                Some(_) => Some(0),
                None => None,
            }
        } else {
            a
        }
    } else {
        amount(p)
    }
}

impl MealPrice {
    /// Reads a price from its text form, as `price_of` describes it.
    pub fn parse(s: &str) -> (r: Option<MealPrice>)
        ensures
            r == price_of(s@),
    {
        let t = trim_str(s);
        let cs = chars_of(t.as_str());
        let n = cs.len();
        let mut k: usize = 0;
        while k < n && cs[k] != ' '
            invariant
                n == cs.len(),
                k <= n,
                forall|j: int| 0 <= j < k ==> cs@[j] != ' ',
            decreases n - k,
        {
            k = k + 1;
        }
        if k == n {
            return None;
        }
        assert(first_space_at(cs@, k as int));
        assert forall|m: int| first_space_at(cs@, m) implies m == k by {}
        assert((choose|x: int| first_space_at(cs@, x)) == k);
        let ghost rest = cs@.skip(k + 1);
        let mut done: Vec<Vec<char>> = Vec::new();
        let ghost pieces: Seq<Seq<char>> = Seq::empty();
        let mut cur: Vec<char> = Vec::new();
        let mut i: usize = k + 1;
        assert(cs@.subrange(k + 1, k + 1) =~= Seq::<char>::empty());
        while i < n
            invariant
                n == cs.len(),
                k < i <= n,
                done.len() == pieces.len(),
                forall|m: int| 0 <= m < pieces.len() ==> (#[trigger] done@[m])@ == pieces[m],
                split_on(cs@.subrange(k + 1, i as int), '/') == pieces.push(cur@),
            decreases n - i,
        {
            let c = cs[i];
            let ghost before = cs@.subrange(k + 1, i as int);
            assert(cs@.subrange(k + 1, i + 1).drop_last() =~= before);
            if c == '/' {
                done.push(cur);
                proof {
                    pieces = pieces.push(cur@);
                }
                cur = Vec::new();
                assert(split_on(cs@.subrange(k + 1, i + 1), '/') =~= pieces.push(cur@));
            } else {
                cur.push(c);
                assert(split_on(cs@.subrange(k + 1, i + 1), '/') =~= pieces.push(cur@));
            }
            i = i + 1;
        }
        assert(cs@.subrange(k + 1, n as int) =~= rest);
        done.push(cur);
        proof {
            pieces = pieces.push(cur@);
        }
        if done.len() < 3 {
            return None;
        }
        assert(pieces == split_on(cs@.skip(k + 1), '/'));
        let mut amounts: Vec<u64> = Vec::new();
        let mut m: usize = 0;
        while m < done.len()
            invariant
                cs@ == trim(s@),
                first_space_at(cs@, k as int),
                (choose|x: int| first_space_at(cs@, x)) == k,
                pieces == split_on(cs@.skip(k + 1), '/'),
                done.len() == pieces.len(),
                forall|x: int| 0 <= x < pieces.len() ==> (#[trigger] done@[x])@ == pieces[x],
                m <= done.len(),
                amounts.len() == m,
                forall|x: int| 0 <= x < m ==> is_signed_amount(#[trigger] pieces[x]),
                forall|x: int| 0 <= x < m ==> amounts@[x] == signed_cents(#[trigger] pieces[x]),
            decreases done.len() - m,
        {
            match signed_amount(&done[m]) {
                Some(a) => amounts.push(a),
                None => {
                    return None;
                },
            }
            m = m + 1;
        }
        Some(MealPrice { student: amounts[0], medium: amounts[1], expensive: amounts[2] })
    }
}

impl core::str::FromStr for MealPrice {
    type Err = ();

    fn from_str(s: &str) -> (r: Result<MealPrice, ()>)
        ensures
            r == (match price_of(s@) {
                Some(p) => Ok(p),
                None => Err(()),
            }),
    {
        match MealPrice::parse(s) {
            Some(p) => Ok(p),
            None => Err(()),
        }
    }
}

} // verus!
