use vstd::prelude::*;
use vstd::arithmetic::power2::{pow2, lemma_pow2_adds, lemma_pow2_pos};
use alloy_primitives::U256;

verus! {

/// The exclusive upper bound of an amount: amounts are 256-bit unsigned integers.
pub open spec fn amount_limit() -> nat {
    pow2(256)
}

/// The weight of a 64-bit limb.
pub open spec fn limb_base() -> nat {
    pow2(64)
}

/// A 256-bit unsigned quantity of tokens, held as four little-endian 64-bit limbs.
#[derive(Clone, Copy, Debug, PartialEq, Eq, Hash)]
pub struct Amount {
    pub limbs: [u64; 4],
}

impl View for Amount {
    type V = nat;

    open spec fn view(&self) -> nat {
        let b = limb_base();
        self.limbs[0] as nat + b * (self.limbs[1] as nat + b * (self.limbs[2] as nat + b
            * (self.limbs[3] as nat)))
    }
}

/// Every amount lies below `amount_limit()`.
pub proof fn lemma_amount_below_limit(a: Amount)
    ensures
        a@ < amount_limit(),
{
    let b = limb_base() as int;
    lemma_pow2_adds(64, 64);
    lemma_pow2_adds(128, 128);
    lemma_pow2_pos(64);
    vstd::arithmetic::power2::lemma2_to64();
    assert(b == 0x10000000000000000int);
    let l0 = a.limbs[0] as int;
    let l1 = a.limbs[1] as int;
    let l2 = a.limbs[2] as int;
    let l3 = a.limbs[3] as int;
    assert(0 <= l0 < b && 0 <= l1 < b && 0 <= l2 < b && 0 <= l3 < b);
    assert(l2 + b * l3 < b * b) by (nonlinear_arith)
        requires
            0 <= l2 < b,
            0 <= l3 < b,
    ;
    assert(l1 + b * (l2 + b * l3) < b * b * b) by (nonlinear_arith)
        requires
            0 <= l1 < b,
            0 <= l2 + b * l3 < b * b,
    ;
    assert(l0 + b * (l1 + b * (l2 + b * l3)) < b * b * b * b) by (nonlinear_arith)
        requires
            0 <= l0 < b,
            0 <= l1 + b * (l2 + b * l3) < b * b * b,
    ;
    assert(pow2(128) == b * b);
    assert(pow2(256) == (b * b) * (b * b));
    assert(b * b * b * b == (b * b) * (b * b)) by (nonlinear_arith);
}

impl Amount {
    pub fn zero() -> (r: Amount)
        ensures
            r@ == 0,
    {
        Amount::from_u64(0)
    }

    pub fn from_u64(v: u64) -> (r: Amount)
        ensures
            r@ == v as nat,
    {
        let r = Amount { limbs: [v, 0, 0, 0] };
        assert(r.limbs[1] == 0 && r.limbs[2] == 0 && r.limbs[3] == 0);
        r
    }

    pub fn from_limbs(limbs: [u64; 4]) -> (r: Amount)
        ensures
            r.limbs == limbs,
    {
        Amount { limbs }
    }

    pub fn into_limbs(self) -> (r: [u64; 4])
        ensures
            r == self.limbs,
    {
        self.limbs
    }
}

/// Relies on ruint's `Uint::checked_add` (alloy_primitives::U256): the sum when it fits in
/// 256 bits, `None` when it does not. `Uint::from_limbs` and `Uint::into_limbs` only move the
/// little-endian limbs in and out.
#[verifier::external_body]
pub(crate) fn checked_add(a: Amount, b: Amount) -> (r: Option<Amount>)
    ensures
        match r {
            Some(s) => a@ + b@ < amount_limit() && s@ == a@ + b@,
            None => a@ + b@ >= amount_limit(),
        },
{
    U256::from_limbs(a.limbs).checked_add(U256::from_limbs(b.limbs)).map(
        |s| Amount::from_limbs(s.into_limbs()),
    )
}

/// Relies on ruint's `Uint::checked_sub` (alloy_primitives::U256): the difference when `b` does
/// not exceed `a`, `None` otherwise.
#[verifier::external_body]
pub(crate) fn checked_sub(a: Amount, b: Amount) -> (r: Option<Amount>)
    ensures
        match r {
            Some(d) => b@ <= a@ && d@ == a@ - b@,
            None => a@ < b@,
        },
{
    U256::from_limbs(a.limbs).checked_sub(U256::from_limbs(b.limbs)).map(
        |d| Amount::from_limbs(d.into_limbs()),
    )
}

} // verus!
