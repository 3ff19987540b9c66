//! Unsigned 256-bit amounts, as the marketplace contract counts balances and
//! rates.

use vstd::prelude::*;

verus! {

/// 2^64, the weight of the second limb.
pub open spec fn limb_base() -> nat {
    0x1_0000_0000_0000_0000nat
}

/// The largest amount, 2^256 - 1.
pub open spec fn max_amount() -> nat {
    0xffff_ffff_ffff_ffff_ffff_ffff_ffff_ffff_ffff_ffff_ffff_ffff_ffff_ffff_ffff_ffffnat
}

/// An unsigned 256-bit integer held as four 64-bit limbs, least significant
/// first.
#[derive(Clone, Copy, Debug, PartialEq, Eq, Structural)]
pub struct Amount {
    pub l0: u64,
    pub l1: u64,
    pub l2: u64,
    pub l3: u64,
}

impl View for Amount {
    type V = nat;

    open spec fn view(&self) -> nat {
        (self.l0 as nat) + (self.l1 as nat) * 0x1_0000_0000_0000_0000nat
            + (self.l2 as nat) * 0x1_0000_0000_0000_0000_0000_0000_0000_0000nat
            + (self.l3 as nat) * 0x1_0000_0000_0000_0000_0000_0000_0000_0000_0000_0000_0000_0000nat
    }
}

/// Whether `c` is one of the ten ASCII digits.
pub open spec fn is_digit(c: char) -> bool {
    '0' <= c && c <= '9'
}

/// The number that a run of ASCII digits writes in base ten; the empty run
/// writes zero.
pub open spec fn digits_value(s: Seq<char>) -> nat
    decreases s.len(),
{
    if s.len() == 0 {
        0
    } else {
        digits_value(s.drop_last()) * 10 + ((s.last() as nat) - ('0' as nat)) as nat
    }
}

/// The amount that `s` writes in base ten: `s` holds ASCII digits only and
/// the number fits in 256 bits. Anything else writes no amount.
pub open spec fn decimal_amount(s: Seq<char>) -> Option<nat> {
    if (forall|i: int| 0 <= i < s.len() ==> is_digit(#[trigger] s[i])) && digits_value(s)
        <= max_amount() {
        Some(digits_value(s))
    } else {
        None
    }
}

/// `a - b`, or zero where `b` exceeds `a`.
pub open spec fn saturating_diff(a: nat, b: nat) -> nat {
    if a >= b {
        (a - b) as nat
    } else {
        0
    }
}

/// Adds two limbs and a carry; the result is the low limb and the carry out.
fn add_limb(a: u64, b: u64, carry: u64) -> (r: (u64, u64))
    requires
        carry <= 1,
    ensures
        r.1 <= 1,
        r.0 + r.1 * 0x1_0000_0000_0000_0000 == a + b + carry,
{
    let sum: u128 = a as u128 + b as u128 + carry as u128;
    if sum >= 0x1_0000_0000_0000_0000u128 {
        ((sum - 0x1_0000_0000_0000_0000u128) as u64, 1)
    } else {
        (sum as u64, 0)
    }
}

/// Subtracts a limb and a borrow from a limb; the result is the low limb and
/// the borrow out.
fn sub_limb(a: u64, b: u64, borrow: u64) -> (r: (u64, u64))
    requires
        borrow <= 1,
    ensures
        r.1 <= 1,
        r.0 - r.1 * 0x1_0000_0000_0000_0000 == a - b - borrow,
{
    let take: u128 = b as u128 + borrow as u128;
    if a as u128 >= take {
        ((a as u128 - take) as u64, 0)
    } else {
        ((a as u128 + 0x1_0000_0000_0000_0000u128 - take) as u64, 1)
    }
}

/// The quotient of two 256-bit integers, computed by the `Div` impl of
/// `ethers::types::U256` (its `div_mod`). The limbs of an `Amount` are the
/// words of a `U256` in the same order. The impl panics on a zero divisor,
/// which `requires` excludes; otherwise it returns the integer quotient.
#[verifier::external_body]
pub(crate) fn quotient(a: &Amount, b: &Amount) -> (r: Amount)
    requires
        b@ != 0,
    ensures
        r@ == a@ / b@,
{
    let q = ethers::types::U256([a.l0, a.l1, a.l2, a.l3])
        / ethers::types::U256([b.l0, b.l1, b.l2, b.l3]);
    Amount { l0: q.0[0], l1: q.0[1], l2: q.0[2], l3: q.0[3] }
}

/// Reads a decimal number with `ethers::types::U256::from_dec_str`. That
/// function walks the bytes of the text, fails on the first byte that is not
/// an ASCII digit and on overflow of 256 bits, and accepts the empty text as
/// zero; so it succeeds exactly where the text writes an amount.
#[verifier::external_body]
pub(crate) fn parse_decimal(text: &str) -> (r: Option<Amount>)
    ensures
        match r {
            Some(a) => decimal_amount(text@) == Some(a@),
            None => decimal_amount(text@) is None,
        },
{
    match ethers::types::U256::from_dec_str(text) {
        Ok(v) => Some(Amount { l0: v.0[0], l1: v.0[1], l2: v.0[2], l3: v.0[3] }),
        Err(_) => None,
    }
}

impl Amount {
    /// The amount zero.
    pub fn zero() -> (r: Amount)
        ensures
            r@ == 0,
    {
        Amount { l0: 0, l1: 0, l2: 0, l3: 0 }
    }

    /// The amount one, the smallest rate that is not zero.
    pub fn one() -> (r: Amount)
        ensures
            r@ == 1,
    {
        Amount { l0: 1, l1: 0, l2: 0, l3: 0 }
    }

    /// The amount with the value of `v`.
    pub fn from_u64(v: u64) -> (r: Amount)
        ensures
            r@ == v,
    {
        Amount { l0: v, l1: 0, l2: 0, l3: 0 }
    }

    /// Whether the amount is zero.
    pub fn is_zero(&self) -> (r: bool)
        ensures
            r == (self@ == 0),
    {
        self.l0 == 0 && self.l1 == 0 && self.l2 == 0 && self.l3 == 0
    }

    /// Whether `self` is strictly below `other`.
    pub fn less_than(&self, other: &Amount) -> (r: bool)
        ensures
            r == (self@ < other@),
    {
        if self.l3 != other.l3 {
            self.l3 < other.l3
        } else if self.l2 != other.l2 {
            self.l2 < other.l2
        } else if self.l1 != other.l1 {
            self.l1 < other.l1
        } else {
            self.l0 < other.l0
        }
    }

    /// Whether `self` is at least `other`.
    pub fn at_least(&self, other: &Amount) -> (r: bool)
        ensures
            r == (self@ >= other@),
    {
        !self.less_than(other)
    }

    /// The sum, or `None` where it does not fit in 256 bits.
    pub fn checked_add(&self, other: &Amount) -> (r: Option<Amount>)
        ensures
            match r {
                Some(sum) => sum@ == self@ + other@,
                None => self@ + other@ > max_amount(),
            },
    {
        let (l0, c0) = add_limb(self.l0, other.l0, 0);
        let (l1, c1) = add_limb(self.l1, other.l1, c0);
        let (l2, c2) = add_limb(self.l2, other.l2, c1);
        let (l3, c3) = add_limb(self.l3, other.l3, c2);
        if c3 == 0 {
            Some(Amount { l0, l1, l2, l3 })
        } else {
            None
        }
    }

    /// The difference, or zero where `other` exceeds `self`.
    pub fn saturating_sub(&self, other: &Amount) -> (r: Amount)
        ensures
            r@ == saturating_diff(self@, other@),
    {
        if self.less_than(other) {
            Amount::zero()
        } else {
            let (l0, b0) = sub_limb(self.l0, other.l0, 0);
            let (l1, b1) = sub_limb(self.l1, other.l1, b0);
            let (l2, b2) = sub_limb(self.l2, other.l2, b1);
            let (l3, b3) = sub_limb(self.l3, other.l3, b2);
            assert(b3 == 0);
            Amount { l0, l1, l2, l3 }
        }
    }

    /// The integer quotient `self / divisor`.
    pub fn div(&self, divisor: &Amount) -> (r: Amount)
        requires
            divisor@ != 0,
        ensures
            r@ == self@ / divisor@,
    {
        quotient(self, divisor)
    }

    /// The low 64 bits of the amount.
    pub fn low_u64(&self) -> (r: u64)
        ensures
            r == self@ % limb_base(),
    {
        self.l0
    }

    /// The amount as a `u64`, or `u64::MAX` where it does not fit.
    pub fn saturating_u64(&self) -> (r: u64)
        ensures
            r == if self@ <= u64::MAX { self@ } else { u64::MAX as nat },
    {
        if self.l1 == 0 && self.l2 == 0 && self.l3 == 0 {
            self.l0
        } else {
            u64::MAX
        }
    }
}

} // verus!
