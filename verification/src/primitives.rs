//! The values that intents are made of: account addresses and 256-bit numbers.

use vstd::prelude::*;
use crate::bytes::{
    all_zero, be_bytes, be_value, copy_bytes, lemma_be_bytes_of_value, lemma_be_value_bound,
    lemma_be_value_concat, lemma_be_value_of_bytes, lemma_pow256_16, lemma_pow256_32,
    lemma_pow256_monotone, pow256, zeros,
};

verus! {

/// A 20-byte account address.
#[derive(Debug, Clone, Copy, PartialEq, Eq)]
pub struct Address {
    pub bytes: [u8; 20],
}

impl View for Address {
    type V = Seq<u8>;

    open spec fn view(&self) -> Seq<u8> {
        self.bytes@
    }
}

/// The all-zero address, as bytes.
pub open spec fn zero_address() -> Seq<u8> {
    zeros(20)
}

impl From<[u8; 20]> for Address {
    fn from(bytes: [u8; 20]) -> (address: Self) {
        Address { bytes }
    }
}

impl vstd::std_specs::convert::FromSpecImpl<[u8; 20]> for Address {
    open spec fn obeys_from_spec() -> bool {
        true
    }

    open spec fn from_spec(bytes: [u8; 20]) -> Self {
        Address { bytes }
    }
}

impl Address {
    /// The all-zero address.
    pub fn zero() -> (address: Address)
        ensures
            address@ == zero_address(),
    {
        let address = Address { bytes: [0u8; 20] };
        assert(address@ =~= zero_address());
        address
    }

    /// Whether this is the all-zero address.
    pub fn is_zero(&self) -> (zero: bool)
        ensures
            zero == (self@ == zero_address()),
    {
        all_zero(&self.bytes)
    }

    /// The 32-byte word of the address.
    pub fn to_word(&self) -> (bytes32: [u8; 32])
        ensures
            bytes32@ == address_word(self@),
    {
        let mut bytes32 = [0u8; 32];
        for i in 0..20
            invariant
                forall|j: int| 0 <= j < 12 ==> bytes32@[j] == 0,
                forall|j: int| 0 <= j < i ==> bytes32@[12 + j] == self.bytes@[j],
        {
            bytes32[12 + i] = self.bytes[i];
        }
        assert(bytes32@ =~= address_word(self@));
        bytes32
    }

    /// The address in a 32-byte word, if the word holds nothing else.
    pub fn from_word(bytes32: &[u8; 32]) -> (address: Option<Address>)
        ensures
            match address {
                Some(a) => is_address_word(bytes32@) && a@ == bytes32@.subrange(12, 32),
                None => !is_address_word(bytes32@),
            },
    {
        let mut bytes = [0u8; 20];
        for i in 0..12
            invariant
                forall|j: int| 0 <= j < i ==> bytes32@[j] == 0,
        {
            if bytes32[i] != 0 {
                assert(bytes32@.subrange(0, 12)[i as int] != zeros(12)[i as int]);
                return None;
            }
        }
        for i in 0..20
            invariant
                forall|j: int| 0 <= j < i ==> bytes@[j] == bytes32@[12 + j],
        {
            bytes[i] = bytes32[12 + i];
        }
        assert(bytes32@.subrange(0, 12) =~= zeros(12));
        assert(bytes@ =~= bytes32@.subrange(12, 32));
        Some(Address { bytes })
    }

    /// The twenty bytes of the address.
    pub fn to_vec(&self) -> (bytes: Vec<u8>)
        ensures
            bytes@ == self@,
            bytes@.len() == 20,
    {
        copy_bytes(&self.bytes)
    }
}

/// A number below `2^256`, as two 128-bit halves.
#[derive(Debug, Clone, Copy, PartialEq, Eq, Structural)]
pub struct U256 {
    pub hi: u128,
    pub lo: u128,
}

impl View for U256 {
    type V = nat;

    open spec fn view(&self) -> nat {
        (self.hi * 0x1_0000_0000_0000_0000_0000_0000_0000_0000 + self.lo) as nat
    }
}

/// The 32-byte big-endian word of a number.
pub open spec fn word(n: nat) -> Seq<u8> {
    be_bytes(n, 32)
}

/// The 32-byte word of an address: twelve zero bytes, then the address.
pub open spec fn address_word(address: Seq<u8>) -> Seq<u8> {
    zeros(12) + address
}

/// Whether a 32-byte word holds an address and nothing else: its first twelve bytes are zero.
pub open spec fn is_address_word(bytes32: Seq<u8>) -> bool {
    bytes32.subrange(0, 12) == zeros(12)
}

/// The word of an address holds it, and the address of a word that holds one gives the word back.
pub proof fn lemma_address_word(address: Seq<u8>, bytes32: Seq<u8>)
    ensures
        address.len() == 20 ==> is_address_word(address_word(address)) && address_word(
            address,
        ).subrange(12, 32) == address,
        bytes32.len() == 32 && is_address_word(bytes32) ==> address_word(
            bytes32.subrange(12, 32),
        ) == bytes32,
{
    if address.len() == 20 {
        assert(address_word(address).subrange(0, 12) =~= zeros(12));
        assert(address_word(address).subrange(12, 32) =~= address);
    }
    if bytes32.len() == 32 && is_address_word(bytes32) {
        assert(bytes32 =~= bytes32.subrange(0, 12) + bytes32.subrange(12, 32));
    }
}

impl From<u64> for U256 {
    fn from(value: u64) -> (number: Self) {
        U256 { hi: 0, lo: value as u128 }
    }
}

impl vstd::std_specs::convert::FromSpecImpl<u64> for U256 {
    open spec fn obeys_from_spec() -> bool {
        true
    }

    open spec fn from_spec(value: u64) -> Self {
        U256 { hi: 0, lo: value as u128 }
    }
}

impl U256 {
    /// The number zero.
    pub fn zero() -> (number: U256)
        ensures
            number@ == 0,
    {
        U256 { hi: 0, lo: 0 }
    }

    /// The number as a `u64`, where it fits.
    pub fn try_to_u64(&self) -> (value: Option<u64>)
        ensures
            value == (if self@ <= u64::MAX { Some(self@ as u64) } else { None }),
    {
        if self.hi == 0 && self.lo <= u64::MAX as u128 {
            Some(self.lo as u64)
        } else {
            None
        }
    }

    /// The number as a `u64`.
    pub fn to_u64(&self) -> (value: u64)
        requires
            self@ <= u64::MAX,
        ensures
            value == self@,
    {
        self.lo as u64
    }

    /// The 32-byte big-endian form of the number.
    pub fn to_be_bytes(&self) -> (bytes: [u8; 32])
        ensures
            bytes@ == word(self@),
            be_value(bytes@) == self@,
    {
        let mut bytes = [0u8; 32];
        let mut hi: u128 = self.hi;
        let mut lo: u128 = self.lo;
        let mut i: usize = 32;
        while i > 0
            invariant
                i <= 32,
                word(self@) == be_bytes((U256 { hi, lo })@, i as nat) + bytes@.subrange(
                    i as int,
                    32,
                ),
            decreases i,
        {
            let ghost before = (U256 { hi, lo })@;
            let ghost tail = bytes@.subrange(i as int, 32);
            let digit: u8 = (lo % 256) as u8;
            i = i - 1;
            bytes[i] = digit;
            lo = lo / 256 + (hi % 256) * 0x100_0000_0000_0000_0000_0000_0000_0000;
            hi = hi / 256;
            proof {
                let after = (U256 { hi, lo })@;
                assert(before / 256 == after);
                assert(before % 256 == digit as nat);
                assert(be_bytes(before, (i + 1) as nat) == be_bytes(after, i as nat).push(digit));
                assert(bytes@.subrange(i as int, 32) =~= seq![digit] + tail);
                assert(be_bytes(after, i as nat).push(digit) + tail =~= be_bytes(after, i as nat)
                    + bytes@.subrange(i as int, 32));
            }
        }
        proof {
            assert(bytes@.subrange(0, 32) =~= bytes@);
            assert(word(self@) =~= bytes@);
            lemma_pow256_32();
            lemma_be_value_of_bytes(self@, 32);
        }
        bytes
    }

    /// The number that 32 big-endian bytes stand for.
    pub fn from_be_bytes(bytes: &[u8; 32]) -> (number: U256)
        ensures
            number@ == be_value(bytes@),
            word(number@) == bytes@,
    {
        let hi: u128 = half_from_be_bytes(bytes, 0);
        let lo: u128 = half_from_be_bytes(bytes, 16);
        proof {
            let a = bytes@.subrange(0, 16);
            let b = bytes@.subrange(16, 32);
            assert(a + b =~= bytes@);
            lemma_be_value_concat(a, b);
            lemma_pow256_16();
            lemma_be_bytes_of_value(bytes@);
        }
        U256 { hi, lo }
    }
}

/// The number that sixteen bytes of a word stand for, from position `at` on.
fn half_from_be_bytes(bytes: &[u8; 32], at: usize) -> (half: u128)
    requires
        at <= 16,
    ensures
        half == be_value(bytes@.subrange(at as int, at + 16)),
{
    let mut half: u128 = 0;
    let ghost part = bytes@.subrange(at as int, at + 16);
    for i in 0..16
        invariant
            at <= 16,
            part == bytes@.subrange(at as int, at + 16),
            half == be_value(part.subrange(0, i as int)),
    {
        proof {
            let seen = part.subrange(0, i as int);
            lemma_be_value_bound(seen);
            lemma_pow256_16();
            lemma_pow256_monotone((i + 1) as nat, 16);
            assert(part.subrange(0, i + 1).drop_last() =~= seen);
            assert(part.subrange(0, i + 1).last() == bytes@[at + i]);
            assert(pow256((i + 1) as nat) == 256 * pow256(i as nat));
        }
        half = half * 256 + bytes[at + i] as u128;
    }
    assert(part.subrange(0, 16) =~= part);
    half
}

/// A number below `2^256` and its word determine each other.
pub proof fn lemma_word_injective(a: nat, b: nat)
    requires
        a < pow256(32),
        b < pow256(32),
        word(a) == word(b),
    ensures
        a == b,
{
    lemma_be_value_of_bytes(a, 32);
    lemma_be_value_of_bytes(b, 32);
}

} // verus!
