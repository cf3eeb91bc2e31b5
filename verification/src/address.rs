//! Account addresses: the 32 bytes of a public key.
use vstd::prelude::*;

verus! {

broadcast use vstd::array::group_array_axioms;

/// A 32-byte account address (the bytes of a public key).
#[derive(Clone, Copy, Debug, Eq)]
pub struct Address {
    pub bytes: [u8; 32],
}

impl View for Address {
    type V = Seq<u8>;

    open spec fn view(&self) -> Seq<u8> {
        self.bytes@
    }
}

impl PartialEq for Address {
    fn eq(&self, other: &Self) -> (r: bool) {
        self.equals(other)
    }
}

impl vstd::std_specs::cmp::PartialEqSpecImpl for Address {
    open spec fn obeys_eq_spec() -> bool {
        true
    }

    open spec fn eq_spec(&self, other: &Self) -> bool {
        self@ == other@
    }
}

/// Thirty-two zero bytes: the default key, and the system program's id.
pub open spec fn zero_key() -> Seq<u8> {
    Seq::new(32, |i: int| 0u8)
}

impl Address {
    pub fn new(bytes: [u8; 32]) -> (r: Self)
        ensures
            r.bytes == bytes,
            r@ == bytes@,
    {
        Address { bytes }
    }

    pub fn to_bytes(&self) -> (r: [u8; 32])
        ensures
            r == self.bytes,
    {
        self.bytes
    }

    /// The all-zero address.
    pub fn zeroed() -> (r: Self)
        ensures
            r@ == zero_key(),
    {
        let a = Address { bytes: [0u8; 32] };
        assert(a@ =~= zero_key());
        a
    }

    /// Copies 32 bytes of `buf` starting at `pos`.
    pub fn from_slice(buf: &[u8], pos: usize) -> (r: Self)
        requires
            pos + 32 <= buf@.len(),
        ensures
            r@ == buf@.subrange(pos as int, pos + 32),
    {
        let mut a = [0u8; 32];
        let len = buf.len();
        let mut i: usize = 0;
        while i < 32
            invariant
                0 <= i <= 32,
                len == buf@.len(),
                pos + 32 <= buf@.len(),
                forall|j: int| 0 <= j < i ==> a@[j] == buf@[pos + j],
            decreases 32 - i,
        {
            a[i] = buf[pos + i];
            i = i + 1;
        }
        assert(a@ =~= buf@.subrange(pos as int, pos + 32));
        Address { bytes: a }
    }

    /// Whether two addresses hold the same bytes.
    pub fn equals(&self, other: &Address) -> (r: bool)
        ensures
            r == (self@ == other@),
    {
        let mut i: usize = 0;
        while i < 32
            invariant
                0 <= i <= 32,
                self@.len() == 32,
                other@.len() == 32,
                forall|j: int| 0 <= j < i ==> self@[j] == other@[j],
            decreases 32 - i,
        {
            if self.bytes[i] != other.bytes[i] {
                return false;
            }
            i = i + 1;
        }
        assert(self@ =~= other@);
        true
    }
}

} // verus!
