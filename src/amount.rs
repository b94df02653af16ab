//! Decimal text of amounts: up to four digits after the point, held as a
//! whole number of ten-thousandths.
use vstd::prelude::*;
use crate::account::Amount;

verus! {

/// Ten-thousandths in one currency unit.
pub const SCALE: u64 = 10000;

/// Digits allowed after the decimal point.
pub const MAX_FRACTION_DIGITS: usize = 4;

pub open spec fn is_digit(c: u8) -> bool {
    48 <= c <= 57
}

pub open spec fn all_digits(s: Seq<u8>) -> bool {
    forall|i: int| 0 <= i < s.len() ==> is_digit(#[trigger] s[i])
}

/// The number that a run of decimal digits spells.
pub open spec fn digits_value(s: Seq<u8>) -> nat
    decreases s.len(),
{
    if s.len() == 0 {
        0
    } else {
        digits_value(s.drop_last()) * 10 + (s.last() - 48) as nat
    }
}

/// Ten to the power `n`.
pub open spec fn pow10(n: nat) -> nat
    decreases n,
{
    if n == 0 {
        1
    } else {
        10 * pow10((n - 1) as nat)
    }
}

/// The position of the first decimal point in `s`, or its length.
pub open spec fn point_index(s: Seq<u8>) -> int
    decreases s.len(),
{
    if s.len() == 0 {
        0
    } else if s[0] == 46 {
        0
    } else {
        1 + point_index(s.drop_first())
    }
}

/// The amount, in ten-thousandths, that `s` spells: one or more digits,
/// then optionally a point and one to four digits. `None` for any other
/// text, and for a value past the largest amount.
pub open spec fn amount_of(s: Seq<u8>) -> Option<Amount> {
    let p = point_index(s);
    let whole = s.subrange(0, p);
    let frac = if p < s.len() { s.subrange(p + 1, s.len() as int) } else { Seq::empty() };
    let v = digits_value(whole) * SCALE + digits_value(frac) * pow10((4 - frac.len()) as nat);
    if whole.len() >= 1 && all_digits(whole) && all_digits(frac) && (p < s.len() ==> 1 <= frac.len()
        <= 4) && v <= u64::MAX {
        Some(v as u64)
    } else {
        None
    }
}

proof fn lemma_point_index(s: Seq<u8>, k: int)
    requires
        0 <= k <= s.len(),
        forall|j: int| 0 <= j < k ==> s[j] != 46,
        k == s.len() || s[k] == 46,
    ensures
        point_index(s) == k,
    decreases s.len(),
{
    if s.len() > 0 && k > 0 {
        assert forall|j: int| 0 <= j < k - 1 implies s.drop_first()[j] != 46 by {
            assert(s.drop_first()[j] == s[j + 1]);
        }
        lemma_point_index(s.drop_first(), k - 1);
    }
}

proof fn lemma_digits_prefix(s: Seq<u8>, k: int)
    requires
        0 <= k <= s.len(),
    ensures
        digits_value(s.subrange(0, k)) <= digits_value(s),
    decreases s.len(),
{
    if k == s.len() {
        assert(s.subrange(0, k) =~= s);
    } else {
        assert(s.drop_last().subrange(0, k) =~= s.subrange(0, k));
        lemma_digits_prefix(s.drop_last(), k);
    }
}

proof fn lemma_pow10_bound(n: nat)
    requires
        n <= 4,
    ensures
        1 <= pow10(n) <= 10000,
        pow10(n) * pow10((4 - n) as nat) == 10000,
{
    reveal_with_fuel(pow10, 5);
    assert(pow10(0) == 1 && pow10(1) == 10 && pow10(2) == 100 && pow10(3) == 1000 && pow10(4) == 10000);
    if n == 0 {
        assert(pow10(n) * pow10((4 - n) as nat) == 1 * 10000);
    } else if n == 1 {
        assert(pow10(n) * pow10((4 - n) as nat) == 10 * 1000);
    } else if n == 2 {
        assert(pow10(n) * pow10((4 - n) as nat) == 100 * 100);
    } else if n == 3 {
        assert(pow10(n) * pow10((4 - n) as nat) == 1000 * 10);
    } else {
        assert(pow10(n) * pow10((4 - n) as nat) == 10000 * 1);
    }
}

proof fn lemma_digits_bound(s: Seq<u8>)
    requires
        all_digits(s),
    ensures
        digits_value(s) < pow10(s.len()),
    decreases s.len(),
{
    if s.len() > 0 {
        lemma_digits_bound(s.drop_last());
        assert(is_digit(s[s.len() - 1]));
    }
}

/// The number that the digits `b[lo..hi]` spell, when they are all digits
/// and the number fits.
fn digits_in(b: &[u8], lo: usize, hi: usize) -> (r: Option<u64>)
    requires
        lo <= hi <= b@.len(),
    ensures
        r == (if all_digits(b@.subrange(lo as int, hi as int)) && digits_value(
            b@.subrange(lo as int, hi as int),
        ) <= u64::MAX {
            Some(digits_value(b@.subrange(lo as int, hi as int)) as u64)
        } else {
            None::<u64>
        }),
{
    let ghost s = b@.subrange(lo as int, hi as int);
    let mut value: u64 = 0;
    let mut i: usize = lo;
    assert(s.subrange(0, 0) =~= Seq::<u8>::empty());
    while i < hi
        invariant
            lo <= i <= hi <= b@.len(),
            s == b@.subrange(lo as int, hi as int),
            all_digits(s.subrange(0, i - lo)),
            value == digits_value(s.subrange(0, i - lo)),
        decreases hi - i,
    {
        let c = b[i];
        let ghost k = i - lo;
        assert(s[k] == c);
        if c < 48 || c > 57 {
            assert(!is_digit(s[k]));
            return None;
        }
        assert(s.subrange(0, k + 1).drop_last() =~= s.subrange(0, k));
        assert(all_digits(s.subrange(0, k + 1))) by {
            assert forall|j: int| 0 <= j < k + 1 implies is_digit(#[trigger] s.subrange(0, k + 1)[j]) by {
                if j < k {
                    assert(s.subrange(0, k + 1)[j] == s.subrange(0, k)[j]);
                }
            }
        }
        let next = match value.checked_mul(10) {
            Some(t) => t.checked_add((c - 48) as u64),
            None => None,
        };
        match next {
            Some(t) => {
                value = t;
            },
            None => {
                proof {
                    lemma_digits_prefix(s, k + 1);
                }
                return None;
            },
        }
        i = i + 1;
    }
    assert(s.subrange(0, hi - lo) =~= s);
    Some(value)
}

/// The whole units and the ten-thousandths of an amount, for rendering it as
/// decimal text.
pub fn amount_parts(x: Amount) -> (r: (u64, u64))
    ensures
        r.0 == x / SCALE,
        r.1 == x % SCALE,
        r.0 * SCALE + r.1 == x,
{
    (x / SCALE, x % SCALE)
}

/// Reads an amount from its decimal text.
pub fn parse_amount(b: &[u8]) -> (r: Option<Amount>)
    ensures
        r == amount_of(b@),
{
    let mut p: usize = 0;
    while p < b.len() && b[p] != 46
        invariant
            p <= b@.len(),
            forall|j: int| 0 <= j < p ==> b@[j] != 46,
        decreases b@.len() - p,
    {
        p = p + 1;
    }
    proof {
        lemma_point_index(b@, p as int);
    }
    let ghost whole = b@.subrange(0, p as int);
    let ghost frac = if p < b@.len() { b@.subrange(p + 1, b@.len() as int) } else { Seq::<u8>::empty() };
    if p == 0 {
        return None;
    }
    let (lo, hi) = if p < b.len() { (p + 1, b.len()) } else { (b.len(), b.len()) };
    assert(frac =~= b@.subrange(lo as int, hi as int));
    if p < b.len() && (hi - lo < 1 || hi - lo > MAX_FRACTION_DIGITS) {
        return None;
    }
    assert(hi - lo <= 4);
    proof {
        lemma_pow10_bound(frac.len());
        lemma_pow10_bound((4 - frac.len()) as nat);
        if all_digits(frac) {
            lemma_digits_bound(frac);
        }
    }
    let w = match digits_in(b, 0, p) {
        Some(w) => w,
        None => return None,
    };
    let f = match digits_in(b, lo, hi) {
        Some(f) => f,
        None => return None,
    };
    proof {
        lemma_digits_bound(frac);
        assert(f as nat * pow10((4 - frac.len()) as nat) < 10000) by (nonlinear_arith)
            requires
                f < pow10(frac.len()),
                pow10(frac.len()) * pow10((4 - frac.len()) as nat) == 10000,
                pow10((4 - frac.len()) as nat) >= 1,
        ;
    }
    let mut scale: u64 = 1;
    let mut n: usize = hi - lo;
    while n < MAX_FRACTION_DIGITS
        invariant
            lo <= hi,
            hi - lo <= n <= 4,
            scale == pow10((n - (hi - lo)) as nat),
        decreases 4 - n,
    {
        proof {
            lemma_pow10_bound((n - (hi - lo)) as nat);
            assert(pow10((n + 1 - (hi - lo)) as nat) == 10 * pow10((n - (hi - lo)) as nat));
        }
        scale = scale * 10;
        n = n + 1;
    }
    let fv = f * scale;
    match w.checked_mul(SCALE) {
        Some(wv) => wv.checked_add(fv),
        None => None,
    }
}

} // verus!
