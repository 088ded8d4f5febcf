//! Plain value types for the ledger: account addresses, 32-byte words and
//! unsigned 256-bit amounts, together with the arithmetic that the ledger
//! borrows from `alloy_primitives`.

use vstd::arithmetic::div_mod::{lemma_fundamental_div_mod, lemma_fundamental_div_mod_converse};
use vstd::prelude::*;

verus! {

/// A 20-byte account address.
#[derive(Clone, Copy, Debug)]
pub struct Address {
    pub bytes: [u8; 20],
}

/// The address whose twenty bytes are all zero. It stands for "nobody":
/// the source of minted tokens and the sink of burnt ones.
pub open spec fn zero_address() -> Address {
    Address { bytes: vstd::array::spec_array_fill_for_copy_type::<u8, 20>(0u8) }
}

/// Whether two arrays of twenty bytes hold the same bytes.
fn same_bytes20(a: &[u8; 20], b: &[u8; 20]) -> (r: bool)
    ensures
        r == (*a == *b),
{
    let mut i: usize = 0;
    while i < 20
        invariant
            i <= 20,
            forall|j: int| 0 <= j < i ==> a[j] == b[j],
        decreases 20 - i,
    {
        if a[i] != b[i] {
            return false;
        }
        i += 1;
    }
    assert(*a =~= *b);
    true
}

/// Whether two arrays of thirty-two bytes hold the same bytes.
fn same_bytes32(a: &[u8; 32], b: &[u8; 32]) -> (r: bool)
    ensures
        r == (*a == *b),
{
    let mut i: usize = 0;
    while i < 32
        invariant
            i <= 32,
            forall|j: int| 0 <= j < i ==> a[j] == b[j],
        decreases 32 - i,
    {
        if a[i] != b[i] {
            return false;
        }
        i += 1;
    }
    assert(*a =~= *b);
    true
}

impl PartialEq for Address {
    fn eq(&self, other: &Address) -> (r: bool) {
        same_bytes20(&self.bytes, &other.bytes)
    }
}

impl vstd::std_specs::cmp::PartialEqSpecImpl for Address {
    open spec fn obeys_eq_spec() -> bool {
        true
    }

    open spec fn eq_spec(&self, other: &Address) -> bool {
        *self == *other
    }
}

impl Eq for Address {

}

impl Address {
    /// Wraps twenty bytes as an address.
    pub fn new(bytes: [u8; 20]) -> (r: Address)
        ensures
            r.bytes == bytes,
    {
        Address { bytes }
    }

    /// The zero address.
    pub fn zero() -> (r: Address)
        ensures
            r == zero_address(),
    {
        Address { bytes: [0u8; 20] }
    }

    /// Whether this is the zero address.
    ///
    /// Trusted: calls `alloy_primitives::Address::is_zero`, which compares the
    /// address with the all-zero constant `Address::ZERO`.
    #[verifier::external_body]
    pub(crate) fn is_zero(&self) -> (r: bool)
        ensures
            r == (*self == zero_address()),
    {
        alloy_primitives::Address::new(self.bytes).is_zero()
    }
}

/// A 32-byte word, used as a content-derived identifier.
#[derive(Clone, Copy, Debug)]
pub struct Bytes32 {
    pub bytes: [u8; 32],
}

impl PartialEq for Bytes32 {
    fn eq(&self, other: &Bytes32) -> (r: bool) {
        same_bytes32(&self.bytes, &other.bytes)
    }
}

impl vstd::std_specs::cmp::PartialEqSpecImpl for Bytes32 {
    open spec fn obeys_eq_spec() -> bool {
        true
    }

    open spec fn eq_spec(&self, other: &Bytes32) -> bool {
        *self == *other
    }
}

impl Eq for Bytes32 {

}

impl Bytes32 {
    /// Wraps thirty-two bytes as a word.
    pub fn new(bytes: [u8; 32]) -> (r: Bytes32)
        ensures
            r.bytes == bytes,
    {
        Bytes32 { bytes }
    }
}

/// Two to the power 64: the weight of one limb.
pub open spec fn limb_base() -> nat {
    0x1_0000_0000_0000_0000
}

/// An unsigned 256-bit integer, held as four 64-bit limbs, least
/// significant first. Its view is the natural number it denotes.
#[derive(Clone, Copy, Debug, PartialEq, Eq, Structural)]
pub struct U256 {
    pub limb0: u64,
    pub limb1: u64,
    pub limb2: u64,
    pub limb3: u64,
}

impl View for U256 {
    type V = nat;

    open spec fn view(&self) -> nat {
        self.limb0 as nat + limb_base() * (self.limb1 as nat + limb_base() * (self.limb2 as nat
            + limb_base() * (self.limb3 as nat)))
    }
}

impl U256 {
    /// Two to the power 256: one more than the largest value.
    pub open spec fn modulus() -> nat {
        limb_base() * limb_base() * limb_base() * limb_base()
    }

    /// The 256-bit integer that denotes `n` (reduced modulo two to the 256).
    pub open spec fn of(n: nat) -> U256 {
        U256 {
            limb0: (n % limb_base()) as u64,
            limb1: ((n / limb_base()) % limb_base()) as u64,
            limb2: ((n / limb_base() / limb_base()) % limb_base()) as u64,
            limb3: ((n / limb_base() / limb_base() / limb_base()) % limb_base()) as u64,
        }
    }

    /// Every value lies below two to the 256.
    pub proof fn lemma_bounded(self)
        ensures
            self@ < U256::modulus(),
    {
        let b = limb_base() as int;
        let top = self.limb2 as int + b * self.limb3 as int;
        assert(top < b * b);
        let upper = self.limb1 as int + b * top;
        assert(upper < b * b * b);
    }

    /// The view is injective: `of` recovers a value from its view.
    pub proof fn lemma_of_view(self)
        ensures
            U256::of(self@) == self,
    {
        let b = limb_base() as int;
        let top = self.limb2 as int + b * self.limb3 as int;
        let upper = self.limb1 as int + b * top;
        lemma_fundamental_div_mod_converse(self@ as int, b, upper, self.limb0 as int);
        lemma_fundamental_div_mod_converse(upper, b, top, self.limb1 as int);
        lemma_fundamental_div_mod_converse(top, b, self.limb3 as int, self.limb2 as int);
        lemma_fundamental_div_mod_converse(self.limb3 as int, b, 0, self.limb3 as int);
    }

    /// `of` denotes the number it was given, as long as that number fits.
    pub proof fn lemma_view_of(n: nat)
        requires
            n < U256::modulus(),
        ensures
            U256::of(n)@ == n,
    {
        let b = limb_base() as int;
        let upper = n as int / b;
        let top = upper / b;
        let last = top / b;
        lemma_fundamental_div_mod(n as int, b);
        lemma_fundamental_div_mod(upper, b);
        lemma_fundamental_div_mod(top, b);
        assert(upper < b * b * b);
        assert(top < b * b);
        assert(last < b);
        lemma_fundamental_div_mod_converse(last, b, 0, last);
    }

    /// Builds a value from its limbs, least significant first.
    pub fn from_limbs(limbs: [u64; 4]) -> (r: U256)
        ensures
            r == (U256 { limb0: limbs[0], limb1: limbs[1], limb2: limbs[2], limb3: limbs[3] }),
    {
        U256 { limb0: limbs[0], limb1: limbs[1], limb2: limbs[2], limb3: limbs[3] }
    }

    /// The limbs of the value, least significant first.
    pub fn into_limbs(self) -> (r: [u64; 4])
        ensures
            r[0] == self.limb0,
            r[1] == self.limb1,
            r[2] == self.limb2,
            r[3] == self.limb3,
    {
        [self.limb0, self.limb1, self.limb2, self.limb3]
    }

    /// Zero.
    pub fn zero() -> (r: U256)
        ensures
            r@ == 0,
            r == U256::of(0),
    {
        let r = U256 { limb0: 0, limb1: 0, limb2: 0, limb3: 0 };
        proof {
            r.lemma_of_view();
        }
        r
    }

    /// Widens a 64-bit integer.
    pub fn from_u64(x: u64) -> (r: U256)
        ensures
            r@ == x,
            r == U256::of(x as nat),
    {
        let r = U256 { limb0: x, limb1: 0, limb2: 0, limb3: 0 };
        proof {
            r.lemma_of_view();
        }
        r
    }

    /// Widens a 128-bit integer.
    pub fn from_u128(x: u128) -> (r: U256)
        ensures
            r@ == x,
            r == U256::of(x as nat),
    {
        let low: u64 = (x % 0x1_0000_0000_0000_0000) as u64;
        let high: u64 = (x / 0x1_0000_0000_0000_0000) as u64;
        let r = U256 { limb0: low, limb1: high, limb2: 0, limb3: 0 };
        proof {
            lemma_fundamental_div_mod(x as int, limb_base() as int);
            r.lemma_of_view();
        }
        r
    }

    /// The sum, or `None` where it does not fit in 256 bits.
    ///
    /// Trusted: calls `ruint::Uint::checked_add` (through the `U256` alias of
    /// `alloy_primitives`), which adds limb by limb with carry and returns
    /// `None` exactly when a carry leaves the top limb.
    #[verifier::external_body]
    pub(crate) fn checked_add(self, rhs: U256) -> (r: Option<U256>)
        ensures
            r == if self@ + rhs@ < U256::modulus() {
                Some(U256::of(self@ + rhs@))
            } else {
                None::<U256>
            },
    {
        alloy_primitives::U256::from_limbs(self.into_limbs()).checked_add(
            alloy_primitives::U256::from_limbs(rhs.into_limbs()),
        ).map(|sum| U256::from_limbs(sum.into_limbs()))
    }

    /// The difference, or `None` where `rhs` is the larger.
    ///
    /// Trusted: calls `ruint::Uint::checked_sub` (through the `U256` alias of
    /// `alloy_primitives`), which subtracts limb by limb with borrow and
    /// returns `None` exactly when a borrow leaves the top limb.
    #[verifier::external_body]
    pub(crate) fn checked_sub(self, rhs: U256) -> (r: Option<U256>)
        ensures
            r == if rhs@ <= self@ {
                Some(U256::of((self@ - rhs@) as nat))
            } else {
                None::<U256>
            },
    {
        alloy_primitives::U256::from_limbs(self.into_limbs()).checked_sub(
            alloy_primitives::U256::from_limbs(rhs.into_limbs()),
        ).map(|difference| U256::from_limbs(difference.into_limbs()))
    }

    /// Whether this value is strictly below `rhs`.
    ///
    /// Trusted: uses the `<` of `ruint::Uint` (through the `U256` alias of
    /// `alloy_primitives`), which orders values as the numbers they denote.
    #[verifier::external_body]
    pub(crate) fn lt(self, rhs: U256) -> (r: bool)
        ensures
            r == (self@ < rhs@),
    {
        alloy_primitives::U256::from_limbs(self.into_limbs())
            < alloy_primitives::U256::from_limbs(rhs.into_limbs())
    }
}

} // verus!
