use vstd::prelude::*;

verus! {

/// The first number that 256 bits cannot hold.
pub open spec fn u256_limit() -> nat {
    0x1_0000_0000_0000_0000_0000_0000_0000_0000_0000_0000_0000_0000_0000_0000_0000_0000nat
}

/// The number that four 64-bit limbs stand for, least significant limb first.
pub open spec fn limbs_value(limbs: [u64; 4]) -> nat {
    (limbs[0] as nat) + (limbs[1] as nat) * 0x1_0000_0000_0000_0000nat + (limbs[2] as nat)
        * 0x1_0000_0000_0000_0000_0000_0000_0000_0000nat + (limbs[3] as nat)
        * 0x1_0000_0000_0000_0000_0000_0000_0000_0000_0000_0000_0000_0000nat
}

/// Adds two 256-bit numbers with `primitive_types::U256::checked_add`.
/// The sum comes back when 256 bits can hold it, and nothing otherwise.
#[verifier::external_body]
fn u256_checked_add(a: [u64; 4], b: [u64; 4]) -> (sum: Option<[u64; 4]>)
    ensures
        sum is Some <==> limbs_value(a) + limbs_value(b) < u256_limit(),
        sum is Some ==> limbs_value(sum->Some_0) == limbs_value(a) + limbs_value(b),
{
    primitive_types::U256(a).checked_add(primitive_types::U256(b)).map(|s| s.0)
}

/// Subtracts two 256-bit numbers with `primitive_types::U256::saturating_sub`.
/// The difference comes back, or zero where `b` is the larger.
#[verifier::external_body]
fn u256_saturating_sub(a: [u64; 4], b: [u64; 4]) -> (difference: [u64; 4])
    ensures
        limbs_value(a) >= limbs_value(b) ==> limbs_value(difference) == limbs_value(a)
            - limbs_value(b),
        limbs_value(a) < limbs_value(b) ==> limbs_value(difference) == 0,
{
    primitive_types::U256(a).saturating_sub(primitive_types::U256(b)).0
}

/// An amount of a native token: an unsigned number of 256 bits, held as four
/// 64-bit limbs with the least significant first.
#[derive(Copy, Clone, Debug, PartialEq, Eq, Hash)]
pub struct TokenAmount(pub [u64; 4]);

impl TokenAmount {
    /// The number that the amount stands for.
    pub open spec fn view(&self) -> nat {
        limbs_value(self.0)
    }

    /// The amount zero.
    pub fn zero() -> (amount: Self)
        ensures
            amount@ == 0,
    {
        TokenAmount([0, 0, 0, 0])
    }

    /// The largest amount: one below the limit of 256 bits.
    pub fn max() -> (amount: Self)
        ensures
            amount@ + 1 == u256_limit(),
    {
        TokenAmount(
            [0xffff_ffff_ffff_ffff, 0xffff_ffff_ffff_ffff, 0xffff_ffff_ffff_ffff, 0xffff_ffff_ffff_ffff],
        )
    }

    /// The amount `value`.
    pub fn from_u64(value: u64) -> (amount: Self)
        ensures
            amount@ == value,
    {
        TokenAmount([value, 0, 0, 0])
    }

    /// The amount with the given limbs, least significant first.
    pub fn from_limbs(limbs: [u64; 4]) -> (amount: Self)
        ensures
            amount == TokenAmount(limbs),
    {
        TokenAmount(limbs)
    }

    /// The limbs of the amount, least significant first.
    pub fn limbs(&self) -> (limbs: [u64; 4])
        ensures
            limbs == self.0,
    {
        self.0
    }

    /// The sum of two amounts, where 256 bits can hold it.
    pub fn checked_add(self, other: Self) -> (sum: Option<Self>)
        ensures
            sum is Some <==> self@ + other@ < u256_limit(),
            sum is Some ==> sum->Some_0@ == self@ + other@,
    {
        match u256_checked_add(self.0, other.0) {
            Some(limbs) => Some(TokenAmount(limbs)),
            None => None,
        }
    }

    /// The difference of two amounts, or zero where `other` is the larger.
    pub fn saturating_sub(self, other: Self) -> (difference: Self)
        ensures
            difference@ == if self@ >= other@ {
                self@ - other@
            } else {
                0
            },
    {
        TokenAmount(u256_saturating_sub(self.0, other.0))
    }

    /// Every amount is below the limit of 256 bits.
    pub proof fn lemma_bounded(self)
        ensures
            self@ < u256_limit(),
    {
    }
}

} // verus!
