use vstd::prelude::*;

use crate::bytes::{be16, slice_as_array, u16_from_be};
use crate::vals::str_from_utf8;

verus! {

/// The specification an attribute comes from.
#[derive(Debug, Clone, Copy, PartialEq, Eq, Structural)]
pub enum RfcSpec {
    Rfc3489,
}

/// Common access to the bytes of an attribute reader.
pub trait GenericAttrReader {
    /// The bytes the reader reads.
    spec fn reader_bytes(&self) -> Seq<u8>;

    fn get_bytes(&self) -> (r: &[u8])
        ensures
            r@ == self.reader_bytes(),
    ;

    fn get_rfc_spec(&self) -> RfcSpec;

    fn is_deprecated(&self) -> bool;

    /// The big-endian length stored in bytes 2 and 3.
    fn get_value_length(&self) -> (r: u16)
        requires
            self.reader_bytes().len() >= 4,
        ensures
            r == be16(self.reader_bytes()[2], self.reader_bytes()[3]),
    {
        let bytes = self.get_bytes();
        u16_from_be(slice_as_array(&bytes[2..4]))
    }
}

/// The text that [`RealmAttributeReader::get_realm`] decodes: as many bytes as
/// the length field declares, starting at offset 2.
pub open spec fn realm_bytes(bytes: Seq<u8>) -> Seq<u8> {
    bytes.subrange(2, 2 + be16(bytes[2], bytes[3]) as int)
}

/// The realm text starts at offset 2 and is as long as the number in bytes 2
/// and 3, high byte first.
pub proof fn lemma_realm_bytes_meaning(bytes: Seq<u8>)
    requires
        bytes.len() >= 4,
    ensures
        realm_bytes(bytes) == bytes.subrange(2, 2 + bytes[2] as int * 256 + bytes[3] as int),
{
}

/// Reads a REALM attribute.
pub struct RealmAttributeReader<'a> {
    bytes: &'a [u8],
}

impl<'a> View for RealmAttributeReader<'a> {
    type V = Seq<u8>;

    closed spec fn view(&self) -> Seq<u8> {
        self.bytes@
    }
}

impl<'a> RealmAttributeReader<'a> {
    pub fn new(bytes: &'a [u8]) -> (r: Self)
        ensures
            r@ == bytes@,
    {
        Self { bytes }
    }

    /// The realm as text; fails unless its bytes are well-formed UTF-8.
    pub fn get_realm(&self) -> (r: Result<&str, core::str::Utf8Error>)
        requires
            self@.len() >= 4,
            2 + be16(self@[2], self@[3]) <= self@.len(),
        ensures
            r is Ok <==> vstd::utf8::valid_utf8(realm_bytes(self@)),
            r matches Ok(s) ==> s@ == vstd::utf8::decode_utf8(realm_bytes(self@)),
    {
        let len = self.get_value_length() as usize;
        str_from_utf8(&self.bytes[2..2 + len])
    }
}

impl<'a> GenericAttrReader for RealmAttributeReader<'a> {
    open spec fn reader_bytes(&self) -> Seq<u8> {
        self@
    }

    fn get_bytes(&self) -> (r: &[u8]) {
        self.bytes
    }

    fn get_rfc_spec(&self) -> (r: RfcSpec)
        ensures
            r == RfcSpec::Rfc3489,
    {
        RfcSpec::Rfc3489
    }

    fn is_deprecated(&self) -> (r: bool)
        ensures
            !r,
    {
        false
    }
}

} // verus!
