//! Fixed-width binary value types: 20-byte addresses and 32-byte words,
//! with lossless conversion to and from their raw byte-array form.

use vstd::prelude::*;

verus! {

/// 20-byte account address. Equality is byte-wise.
#[derive(Clone, Copy, Eq, Debug)]
pub struct Address(pub [u8; 20]);

/// 32-byte opaque word, used for storage keys, storage values and hashes.
#[derive(Clone, Copy, Eq, Debug)]
pub struct Bytes32(pub [u8; 32]);

/// 32-byte big-endian unsigned integer (balances, gas price, chain id).
#[derive(Clone, Copy, Eq, Debug)]
pub struct Uint256(pub [u8; 32]);

impl View for Address {
    type V = Seq<u8>;

    open spec fn view(&self) -> Seq<u8> {
        self.0@
    }
}

impl View for Bytes32 {
    type V = Seq<u8>;

    open spec fn view(&self) -> Seq<u8> {
        self.0@
    }
}

impl View for Uint256 {
    type V = Seq<u8>;

    open spec fn view(&self) -> Seq<u8> {
        self.0@
    }
}

/// Byte-wise equality of two fixed-size buffers.
fn bytes20_eq(a: &[u8; 20], b: &[u8; 20]) -> (r: bool)
    ensures
        r == (a@ == b@),
{
    let mut i: usize = 0;
    while i < 20
        invariant
            i <= 20,
            forall|j: int| 0 <= j < i ==> a@[j] == b@[j],
        decreases 20 - i,
    {
        if a[i] != b[i] {
            return false;
        }
        i += 1;
    }
    proof {
        assert(a@ =~= b@);
    }
    true
}

/// Byte-wise equality of two fixed-size buffers.
fn bytes32_eq(a: &[u8; 32], b: &[u8; 32]) -> (r: bool)
    ensures
        r == (a@ == b@),
{
    let mut i: usize = 0;
    while i < 32
        invariant
            i <= 32,
            forall|j: int| 0 <= j < i ==> a@[j] == b@[j],
        decreases 32 - i,
    {
        if a[i] != b[i] {
            return false;
        }
        i += 1;
    }
    proof {
        assert(a@ =~= b@);
    }
    true
}

impl PartialEq for Address {
    fn eq(&self, other: &Address) -> (r: bool) {
        bytes20_eq(&self.0, &other.0)
    }
}

impl vstd::std_specs::cmp::PartialEqSpecImpl for Address {
    open spec fn obeys_eq_spec() -> bool {
        true
    }

    open spec fn eq_spec(&self, other: &Address) -> bool {
        self@ == other@
    }
}

impl PartialEq for Bytes32 {
    fn eq(&self, other: &Bytes32) -> (r: bool) {
        bytes32_eq(&self.0, &other.0)
    }
}

impl vstd::std_specs::cmp::PartialEqSpecImpl for Bytes32 {
    open spec fn obeys_eq_spec() -> bool {
        true
    }

    open spec fn eq_spec(&self, other: &Bytes32) -> bool {
        self@ == other@
    }
}

impl PartialEq for Uint256 {
    fn eq(&self, other: &Uint256) -> (r: bool) {
        bytes32_eq(&self.0, &other.0)
    }
}

impl vstd::std_specs::cmp::PartialEqSpecImpl for Uint256 {
    open spec fn obeys_eq_spec() -> bool {
        true
    }

    open spec fn eq_spec(&self, other: &Uint256) -> bool {
        self@ == other@
    }
}

/// A variable-length byte string, rendered as hexadecimal in the
/// persisted-snapshot form of the state.
#[derive(Eq, Debug)]
pub struct JsonBytes(pub Vec<u8>);

/// Byte-wise equality of two byte vectors.
fn byte_vec_eq(a: &Vec<u8>, b: &Vec<u8>) -> (r: bool)
    ensures
        r == (a@ == b@),
{
    if a.len() != b.len() {
        return false;
    }
    let n = a.len();
    let mut i: usize = 0;
    while i < n
        invariant
            i <= n,
            n == a@.len(),
            n == b@.len(),
            forall|j: int| 0 <= j < i ==> a@[j] == b@[j],
        decreases n - i,
    {
        if a[i] != b[i] {
            return false;
        }
        i += 1;
    }
    proof {
        assert(a@ =~= b@);
    }
    true
}

impl View for JsonBytes {
    type V = Seq<u8>;

    open spec fn view(&self) -> Seq<u8> {
        self.0@
    }
}

impl PartialEq for JsonBytes {
    fn eq(&self, other: &JsonBytes) -> (r: bool) {
        byte_vec_eq(&self.0, &other.0)
    }
}

impl vstd::std_specs::cmp::PartialEqSpecImpl for JsonBytes {
    open spec fn obeys_eq_spec() -> bool {
        true
    }

    open spec fn eq_spec(&self, other: &JsonBytes) -> bool {
        self@ == other@
    }
}

impl JsonBytes {
    /// A copy holding the same bytes.
    pub fn duplicate(&self) -> (r: JsonBytes)
        ensures
            r@ == self@,
    {
        JsonBytes(clone_byte_vec(&self.0))
    }
}

/// A copy of a byte vector holding the same bytes.
pub fn clone_byte_vec(v: &Vec<u8>) -> (r: Vec<u8>)
    ensures
        r@ == v@,
{
    let r = v.clone();
    proof {
        assert forall|i: int| 0 <= i < v@.len() implies r@[i] == v@[i] by {
            assert(cloned::<u8>(v@[i], r@[i]));
        }
        assert(r@ =~= v@);
    }
    r
}

/// The all-zero 20-byte address.
pub open spec fn zero_address() -> Seq<u8> {
    Seq::new(20, |i: int| 0u8)
}

/// The all-zero 32-byte word.
pub open spec fn zero_word() -> Seq<u8> {
    Seq::new(32, |i: int| 0u8)
}

impl Address {
    /// Builds an address from its raw byte-array form (no loss, no failure).
    pub fn from_bytes(bytes: [u8; 20]) -> (r: Address)
        ensures
            r@ == bytes@,
    {
        Address(bytes)
    }

    /// Returns the raw byte-array form of the address.
    pub fn to_bytes(&self) -> (r: [u8; 20])
        ensures
            r@ == self@,
    {
        self.0
    }

    /// The all-zero address.
    pub fn zero() -> (r: Address)
        ensures
            r@ == zero_address(),
    {
        let r = Address([0u8; 20]);
        proof {
            assert(r@ =~= zero_address());
        }
        r
    }
}

impl Bytes32 {
    /// Builds a word from its raw byte-array form (no loss, no failure).
    pub fn from_bytes(bytes: [u8; 32]) -> (r: Bytes32)
        ensures
            r@ == bytes@,
    {
        Bytes32(bytes)
    }

    /// Returns the raw byte-array form of the word.
    pub fn to_bytes(&self) -> (r: [u8; 32])
        ensures
            r@ == self@,
    {
        self.0
    }

    /// The all-zero word.
    pub fn zero() -> (r: Bytes32)
        ensures
            r@ == zero_word(),
    {
        let r = Bytes32([0u8; 32]);
        proof {
            assert(r@ =~= zero_word());
        }
        r
    }
}

impl Uint256 {
    /// Builds an integer from its raw big-endian byte-array form.
    pub fn from_bytes(bytes: [u8; 32]) -> (r: Uint256)
        ensures
            r@ == bytes@,
    {
        Uint256(bytes)
    }

    /// Returns the raw big-endian byte-array form of the integer.
    pub fn to_bytes(&self) -> (r: [u8; 32])
        ensures
            r@ == self@,
    {
        self.0
    }

    /// The integer zero.
    pub fn zero() -> (r: Uint256)
        ensures
            r@ == zero_word(),
    {
        let r = Uint256([0u8; 32]);
        proof {
            assert(r@ =~= zero_word());
        }
        r
    }
}

} // verus!
