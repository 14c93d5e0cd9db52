//! Exact fractions of counts.

use vstd::prelude::*;

verus! {

/// A fraction of two counts. A fraction over zero stands for zero.
#[derive(Clone, Copy, Debug, PartialEq, Eq, Structural)]
pub struct Ratio {
    pub num: u64,
    pub den: u64,
}

impl Ratio {
    /// This fraction is smaller than the other.
    pub open spec fn lt(self, other: Ratio) -> bool {
        if other.den == 0 {
            false
        } else if self.den == 0 {
            other.num > 0
        } else {
            self.num * other.den < other.num * self.den
        }
    }

    /// Whether this fraction is smaller than the other.
    pub fn below(&self, other: &Ratio) -> (r: bool)
        ensures
            r == self.lt(*other),
    {
        if other.den == 0 {
            false
        } else if self.den == 0 {
            other.num > 0
        } else {
            proof {
                lemma_product_fits(self.num, other.den);
                lemma_product_fits(other.num, self.den);
            }
            (self.num as u128) * (other.den as u128) < (other.num as u128) * (self.den as u128)
        }
    }

    /// The same fraction, or zero over one when there is nothing to divide by.
    pub fn of(num: u64, den: u64) -> (r: Ratio)
        ensures
            r == ratio_of(num as nat, den as nat),
    {
        if den == 0 {
            Ratio { num: 0, den: 1 }
        } else {
            Ratio { num, den }
        }
    }
}

/// A count as far as the machine holds it.
pub open spec fn capped(n: nat) -> nat {
    if n > u64::MAX {
        u64::MAX as nat
    } else {
        n
    }
}

/// `num` over `den`; zero over one when there is nothing to divide by.
pub open spec fn ratio_of(num: nat, den: nat) -> Ratio {
    if den == 0 {
        Ratio { num: 0, den: 1 }
    } else {
        Ratio { num: num as u64, den: den as u64 }
    }
}

/// Cuts a count to what a fraction holds.
pub(crate) fn cap(n: u128) -> (r: u64)
    ensures
        r as nat == capped(n as nat),
{
    if n > 0xffff_ffff_ffff_ffff {
        0xffff_ffff_ffff_ffff
    } else {
        n as u64
    }
}

/// A fraction that is not larger than one that is smaller than a third is
/// smaller than the third.
pub proof fn lemma_ratio_transitive(a: Ratio, b: Ratio, c: Ratio)
    requires
        a.den > 0,
        b.den > 0,
        c.den > 0,
        !b.lt(a),
        b.lt(c),
    ensures
        a.lt(c),
{
    let an = a.num as int;
    let ad = a.den as int;
    let bn = b.num as int;
    let bd = b.den as int;
    let cn = c.num as int;
    let cd = c.den as int;
    assert(an * cd < cn * ad) by (nonlinear_arith)
        requires
            an * bd <= bn * ad,
            bn * cd < cn * bd,
            ad > 0,
            bd > 0,
            cd > 0,
            an >= 0,
            bn >= 0,
            cn >= 0,
    {
        assert((an * bd) * cd <= (bn * ad) * cd);
        assert((bn * cd) * ad < (cn * bd) * ad);
        assert((an * bd) * cd == (an * cd) * bd);
        assert((bn * ad) * cd == (bn * cd) * ad);
        assert((cn * bd) * ad == (cn * ad) * bd);
        assert((an * cd) * bd < (cn * ad) * bd);
    }
}

proof fn lemma_product_fits(a: u64, b: u64)
    ensures
        0 <= a * b <= u128::MAX,
{
    assert(0 <= a * b <= 0xffff_ffff_ffff_ffff * 0xffff_ffff_ffff_ffff) by (nonlinear_arith)
        requires
            0 <= a <= 0xffff_ffff_ffff_ffff,
            0 <= b <= 0xffff_ffff_ffff_ffff,
    ;
}

/// What a fraction is worth is what orders it: whole numbers come in their order,
/// a fraction does not change when both of its parts are multiplied, and a
/// fraction over zero is worth nothing.
pub proof fn law_fractions_are_ordered_by_worth(a: Ratio, b: Ratio, n: u64, m: u64)
    ensures
        (Ratio { num: n, den: 1 }).lt(Ratio { num: m, den: 1 }) <==> n < m,
        a.den > 0 && b.den > 0 ==> (a.lt(b) <==> a.num * b.den < b.num * a.den),
        b.den == 0 ==> !a.lt(b),
        a.den == 0 && b.den > 0 ==> (a.lt(b) <==> b.num > 0),
        !a.lt(a),
        !(a.lt(b) && b.lt(a)),
        a.den > 0 && a.den == b.den ==> (a.lt(b) <==> a.num < b.num),
        a.num > 0 && a.num == b.num && a.den > 0 && b.den > 0 ==> (a.lt(b) <==> b.den < a.den),
{
    let an = a.num as int;
    let ad = a.den as int;
    let bn = b.num as int;
    let bd = b.den as int;
    assert(ad > 0 && ad == bd ==> (an * bd < bn * ad <==> an < bn)) by (nonlinear_arith);
    assert(an > 0 && an == bn && ad > 0 && bd > 0 ==> (an * bd < bn * ad <==> bd < ad))
        by (nonlinear_arith);
}

} // verus!
