use vstd::prelude::*;

verus! {

/// The value of two bytes read in network (big-endian) order.
pub open spec fn be16(hi: u8, lo: u8) -> nat {
    hi as nat * 256 + lo as nat
}

/// The big-endian `u16` stored at `s[i..i + 2]`.
pub open spec fn be16_at(s: Seq<u8>, i: int) -> u16 {
    be16(s[i], s[i + 1]) as u16
}

/// Reads a big-endian `u16` from a two-byte array.
pub fn u16_from_be(b: &[u8; 2]) -> (r: u16)
    ensures
        r == be16(b@[0], b@[1]),
{
    (b[0] as u16) * 256 + (b[1] as u16)
}

/// Views a slice of exactly `N` bytes as an array reference.
///
/// Calls `<&[u8; N] as TryFrom<&[u8]>>::try_from`, which std documents to
/// succeed exactly when the slice has length `N`, giving a reference to the
/// same bytes; the `requires` rules out the failing case.
#[verifier::external_body]
pub(crate) fn slice_as_array<'a, const N: usize>(s: &'a [u8]) -> (r: &'a [u8; N])
    requires
        s@.len() == N,
    ensures
        r@ == s@,
{
    s.try_into().unwrap()
}

} // verus!
