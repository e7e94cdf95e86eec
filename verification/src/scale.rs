//! Uniform resize scale factors.
//!
//! A scale factor is kept as an exact decimal fraction `num / den`, parsed
//! from text such as `1.0`, `0.5` or `2`. Applying it to a dimension
//! rounds half up, matching round-to-nearest for a positive value, and
//! saturates at `u32::MAX`. At most nine digits of input are accepted, so
//! all arithmetic stays exact.

use vstd::arithmetic::div_mod::lemma_fundamental_div_mod_converse_div;
use vstd::prelude::*;

use crate::text::{digit_val, is_digit, pow10, val_of};

verus! {

/// An exact decimal scale factor `num / den`.
#[derive(Clone, Copy, PartialEq, Eq, Structural, Debug)]
pub struct Scale {
    pub num: u32,
    pub den: u32,
}

/// `round(w * num / den)` over the integers: `(2*w*num + den) / (2*den)`
/// is the half-up rounding of `w * num / den`.
pub open spec fn scaled(w: nat, num: nat, den: nat) -> nat
    recommends
        den >= 1,
{
    (2 * w * num + den) / (2 * den)
}

/// Saturation of a dimension at the largest representable value.
pub open spec fn clamp_dim(n: nat) -> nat {
    if n > u32::MAX as nat {
        u32::MAX as nat
    } else {
        n
    }
}

impl Scale {
    /// Bounds under which applying the scale cannot overflow.
    pub open spec fn wf(self) -> bool {
        &&& 1 <= self.num <= 999_999_999
        &&& 1 <= self.den <= 1_000_000_000
    }

    pub open spec fn spec_apply(self, w: u32) -> nat {
        scaled(w as nat, self.num as nat, self.den as nat)
    }

    /// The neutral scale factor.
    pub fn one() -> (r: Scale)
        ensures
            r.num == 1,
            r.den == 1,
            r.wf(),
    {
        Scale { num: 1, den: 1 }
    }

    /// Applies the scale to a dimension, rounding to the nearest integer
    /// and saturating at `u32::MAX`.
    pub fn apply(&self, w: u32) -> (r: u32)
        requires
            self.wf(),
        ensures
            r as nat == clamp_dim(self.spec_apply(w)),
    {
        proof {
            assert(2 * (w as nat) * (self.num as nat) + (self.den as nat) <= u64::MAX as nat)
                by (nonlinear_arith)
                requires
                    w <= u32::MAX,
                    self.num <= 999_999_999,
                    self.den <= 1_000_000_000,
            ;
        }
        let t: u64 = 2u64 * (w as u64) * (self.num as u64) + (self.den as u64);
        let d: u64 = 2u64 * (self.den as u64);
        let q: u64 = t / d;
        if q > 0xFFFF_FFFFu64 {
            u32::MAX
        } else {
            q as u32
        }
    }
}

/// A scale whose numerator and denominator agree maps every dimension to
/// itself: a multiplier of one leaves the dimensions unchanged.
pub proof fn lemma_unit_scale(w: u32, num: nat, den: nat)
    requires
        1 <= den,
        num == den,
    ensures
        scaled(w as nat, num, den) == w as nat,
{
    let x = 2 * (w as nat) * num + den;
    assert(2 * (w as nat) * num + den == (w as nat) * (2 * den) + den) by (nonlinear_arith)
        requires
            num == den,
    ;
    lemma_fundamental_div_mod_converse_div(x as int, (2 * den) as int, w as int, den as int);
}

/// The digit characters of `s`, in order.
pub open spec fn digits_of(s: Seq<char>) -> Seq<char>
    decreases s.len(),
{
    if s.len() == 0 {
        Seq::empty()
    } else {
        digits_of(s.drop_last()) + (if is_digit(s.last()) {
            seq![s.last()]
        } else {
            Seq::<char>::empty()
        })
    }
}

/// How many dots `s` holds.
pub open spec fn dot_count(s: Seq<char>) -> nat
    decreases s.len(),
{
    if s.len() == 0 {
        0
    } else {
        dot_count(s.drop_last()) + (if s.last() == '.' {
            1nat
        } else {
            0nat
        })
    }
}

/// The number of characters after the last dot of `s`, when `s` has one.
pub open spec fn frac_len(s: Seq<char>) -> Option<nat>
    decreases s.len(),
{
    if s.len() == 0 {
        None
    } else if s.last() == '.' {
        Some(0nat)
    } else {
        match frac_len(s.drop_last()) {
            Some(n) => Some((n + 1) as nat),
            None => None,
        }
    }
}

/// Valid scale text: digits with at most one dot, one to nine digits in
/// all, of a positive value.
pub open spec fn scale_text_valid(s: Seq<char>) -> bool {
    &&& forall|i: int| 0 <= i < s.len() ==> is_digit(s[i]) || s[i] == '.'
    &&& dot_count(s) <= 1
    &&& 1 <= digits_of(s).len() <= 9
    &&& val_of(digits_of(s)) >= 1
}

/// The numerator a valid scale text denotes: the value of its digits.
pub open spec fn spec_num(s: Seq<char>) -> nat {
    val_of(digits_of(s))
}

/// The denominator a valid scale text denotes: ten to the number of
/// fractional digits.
pub open spec fn spec_den(s: Seq<char>) -> nat {
    match frac_len(s) {
        Some(n) => pow10(n),
        None => 1,
    }
}

proof fn lemma_digit_count_monotone(s: Seq<char>, i: int, j: int)
    requires
        0 <= i <= j <= s.len(),
    ensures
        digits_of(s.subrange(0, i)).len() <= digits_of(s.subrange(0, j)).len(),
    decreases j - i,
{
    if i < j {
        lemma_digit_count_monotone(s, i, j - 1);
        assert(s.subrange(0, j).drop_last() =~= s.subrange(0, j - 1));
    }
}

proof fn lemma_dot_count_monotone(s: Seq<char>, i: int, j: int)
    requires
        0 <= i <= j <= s.len(),
    ensures
        dot_count(s.subrange(0, i)) <= dot_count(s.subrange(0, j)),
    decreases j - i,
{
    if i < j {
        lemma_dot_count_monotone(s, i, j - 1);
        assert(s.subrange(0, j).drop_last() =~= s.subrange(0, j - 1));
    }
}

proof fn lemma_digits_of_digits(s: Seq<char>)
    ensures
        forall|i: int| 0 <= i < digits_of(s).len() ==> is_digit(digits_of(s)[i]),
    decreases s.len(),
{
    if s.len() > 0 {
        lemma_digits_of_digits(s.drop_last());
        assert forall|i: int| 0 <= i < digits_of(s).len() implies is_digit(digits_of(s)[i]) by {
            if i >= digits_of(s.drop_last()).len() {
                assert(digits_of(s)[i] == s.last());
            }
        }
    }
}

proof fn lemma_val_bound(ds: Seq<char>)
    requires
        forall|i: int| 0 <= i < ds.len() ==> is_digit(ds[i]),
    ensures
        val_of(ds) < pow10(ds.len()),
    decreases ds.len(),
{
    if ds.len() > 0 {
        lemma_val_bound(ds.drop_last());
        assert(val_of(ds.drop_last()) * 10 <= (pow10((ds.len() - 1) as nat) - 1) * 10)
            by (nonlinear_arith)
            requires
                val_of(ds.drop_last()) <= pow10((ds.len() - 1) as nat) - 1,
        ;
    }
}

/// Parses a decimal scale factor such as `1.0`, `0.5` or `2`. Returns
/// `None` when the text is not made of digits with at most one dot, has
/// no digit or more than nine, or denotes zero.
pub fn parse_scale(text: &str) -> (r: Option<Scale>)
    ensures
        r is Some <==> scale_text_valid(text@),
        r matches Some(sc) ==> sc.wf() && sc.num as nat == spec_num(text@) && sc.den as nat
            == spec_den(text@),
{
    let n = text.unicode_len();
    let mut i: usize = 0;
    let mut acc: u32 = 0;
    let mut den: u32 = 1;
    let mut dcount: usize = 0;
    let mut seen_dot: bool = false;
    let ghost mut fd: nat = 0nat;
    proof {
        assert(text@.subrange(0, 0) =~= Seq::<char>::empty());
        reveal_with_fuel(pow10, 11);
    }
    while i < n
        invariant
            n == text@.len(),
            i <= n,
            forall|q: int| 0 <= q < i ==> is_digit(text@[q]) || text@[q] == '.',
            dcount == digits_of(text@.subrange(0, i as int)).len(),
            dcount <= 9,
            acc as nat == val_of(digits_of(text@.subrange(0, i as int))),
            acc < 1_000_000_000,
            seen_dot <==> frac_len(text@.subrange(0, i as int)) is Some,
            seen_dot ==> frac_len(text@.subrange(0, i as int)) == Some(fd) && fd <= dcount,
            dot_count(text@.subrange(0, i as int)) == if seen_dot {
                1nat
            } else {
                0nat
            },
            den as nat == spec_den(text@.subrange(0, i as int)),
            den as nat == if seen_dot {
                pow10(fd)
            } else {
                1nat
            },
        decreases n - i,
    {
        let c = text.get_char(i);
        let ghost pre = text@.subrange(0, i as int);
        let ghost post = text@.subrange(0, i as int + 1);
        proof {
            assert(post.drop_last() =~= pre);
            assert(post.last() == text@[i as int]);
        }
        if c == '.' {
            if seen_dot {
                proof {
                    lemma_dot_count_monotone(text@, i as int + 1, n as int);
                    assert(text@.subrange(0, n as int) =~= text@);
                }
                return None;
            }
            seen_dot = true;
            proof {
                fd = 0nat;
                assert(digits_of(post) =~= digits_of(pre));
                reveal_with_fuel(pow10, 11);
            }
        } else if c >= '0' && c <= '9' {
            if dcount == 9 {
                proof {
                    assert(digits_of(post) =~= digits_of(pre) + seq![text@[i as int]]);
                    assert(digits_of(post).len() == 10);
                    lemma_digit_count_monotone(text@, i as int + 1, n as int);
                    assert(text@.subrange(0, n as int) =~= text@);
                }
                return None;
            }
            proof {
                assert(digits_of(post) =~= digits_of(pre) + seq![text@[i as int]]);
                assert(digits_of(post).drop_last() =~= digits_of(pre));
                lemma_digits_of_digits(pre);
                lemma_val_bound(digits_of(pre));
                reveal_with_fuel(pow10, 11);
                assert(acc as nat * 10 <= (pow10(9) - 1) * 10) by (nonlinear_arith)
                    requires
                        acc as nat <= pow10(9) - 1,
                ;
            }
            let d: u32 = (c as u32) - ('0' as u32);
            acc = acc * 10 + d;
            dcount = dcount + 1;
            if seen_dot {
                proof {
                    assert(pow10(fd) < pow10(9)) by {
                        reveal_with_fuel(pow10, 11);
                        lemma_pow10_increasing(fd, 9nat);
                    }
                    fd = fd + 1;
                }
                den = den * 10;
            }
        } else {
            proof {
                assert(!(is_digit(text@[i as int]) || text@[i as int] == '.'));
            }
            return None;
        }
        i = i + 1;
    }
    proof {
        assert(text@.subrange(0, n as int) =~= text@);
    }
    if dcount == 0 {
        return None;
    }
    if acc == 0 {
        return None;
    }
    proof {
        lemma_digits_of_digits(text@);
        lemma_val_bound(digits_of(text@));
        reveal_with_fuel(pow10, 11);
        if seen_dot {
            lemma_pow10_bound(fd);
        }
    }
    Some(Scale { num: acc, den })
}

proof fn lemma_pow10_increasing(a: nat, b: nat)
    requires
        a < b,
    ensures
        pow10(a) < pow10(b),
    decreases b,
{
    if a + 1 < b {
        lemma_pow10_increasing(a, (b - 1) as nat);
    }
    assert(pow10(b) == 10 * pow10((b - 1) as nat));
    assert(pow10((b - 1) as nat) >= 1) by {
        lemma_pow10_pos((b - 1) as nat);
    }
}

proof fn lemma_pow10_pos(n: nat)
    ensures
        pow10(n) >= 1,
    decreases n,
{
    if n > 0 {
        lemma_pow10_pos((n - 1) as nat);
    }
}

proof fn lemma_pow10_bound(n: nat)
    requires
        n <= 9,
    ensures
        pow10(n) <= 1_000_000_000,
{
    reveal_with_fuel(pow10, 11);
    if n < 9 {
        lemma_pow10_increasing(n, 9nat);
    }
}

} // verus!
