use vstd::prelude::*;

use crate::attribute::{AttrView, AttributeIterator, typed_attributes, parse_attributes};
use crate::message::ReaderErr;
use crate::vals::{SocketAddrReader, StringReader, XorSocketAddrReader};

verus! {

/// An attribute of a known type, with a reader over its value.
pub enum Rfc3489Attribute<'a> {
    MappedAddress(SocketAddrReader<'a>),
    ResponseAddress(SocketAddrReader<'a>),
    ChangeAddress(SocketAddrReader<'a>),
    SourceAddress(SocketAddrReader<'a>),
    ChangedAddress(SocketAddrReader<'a>),
    Username(StringReader<'a>),
    Password(StringReader<'a>),
    ReflectedFrom(SocketAddrReader<'a>),
    Realm(StringReader<'a>),
    Nonce(StringReader<'a>),
    XorMappedAddress(XorSocketAddrReader<'a>),
    OptXorMappedAddress(XorSocketAddrReader<'a>),
    Software(StringReader<'a>),
    AlternateServer(SocketAddrReader<'a>),
    ResponseOrigin(SocketAddrReader<'a>),
    OtherAddress(SocketAddrReader<'a>),
}

/// The attribute types this reader knows.
pub open spec fn is_known_type(t: u16) -> bool {
    ||| 0x0001 <= t <= 0x0007
    ||| t == 0x000B
    ||| t == 0x0014
    ||| t == 0x0015
    ||| t == 0x0020
    ||| t == 0x8020
    ||| t == 0x8022
    ||| t == 0x8023
    ||| t == 0x802b
    ||| t == 0x802c
}

impl<'a> Rfc3489Attribute<'a> {
    /// The attribute type that this variant stands for.
    pub open spec fn type_code(&self) -> u16 {
        match self {
            Rfc3489Attribute::MappedAddress(_) => 0x0001,
            Rfc3489Attribute::ResponseAddress(_) => 0x0002,
            Rfc3489Attribute::ChangeAddress(_) => 0x0003,
            Rfc3489Attribute::SourceAddress(_) => 0x0004,
            Rfc3489Attribute::ChangedAddress(_) => 0x0005,
            Rfc3489Attribute::Username(_) => 0x0006,
            Rfc3489Attribute::Password(_) => 0x0007,
            Rfc3489Attribute::ReflectedFrom(_) => 0x000B,
            Rfc3489Attribute::Realm(_) => 0x0014,
            Rfc3489Attribute::Nonce(_) => 0x0015,
            Rfc3489Attribute::XorMappedAddress(_) => 0x0020,
            Rfc3489Attribute::OptXorMappedAddress(_) => 0x8020,
            Rfc3489Attribute::Software(_) => 0x8022,
            Rfc3489Attribute::AlternateServer(_) => 0x8023,
            Rfc3489Attribute::ResponseOrigin(_) => 0x802b,
            Rfc3489Attribute::OtherAddress(_) => 0x802c,
        }
    }

    /// The value bytes the reader reads.
    pub open spec fn value(&self) -> Seq<u8> {
        match self {
            Rfc3489Attribute::MappedAddress(r) => r@,
            Rfc3489Attribute::ResponseAddress(r) => r@,
            Rfc3489Attribute::ChangeAddress(r) => r@,
            Rfc3489Attribute::SourceAddress(r) => r@,
            Rfc3489Attribute::ChangedAddress(r) => r@,
            Rfc3489Attribute::Username(r) => r@,
            Rfc3489Attribute::Password(r) => r@,
            Rfc3489Attribute::ReflectedFrom(r) => r@,
            Rfc3489Attribute::Realm(r) => r@,
            Rfc3489Attribute::Nonce(r) => r@,
            Rfc3489Attribute::XorMappedAddress(r) => r@.0,
            Rfc3489Attribute::OptXorMappedAddress(r) => r@.0,
            Rfc3489Attribute::Software(r) => r@,
            Rfc3489Attribute::AlternateServer(r) => r@,
            Rfc3489Attribute::ResponseOrigin(r) => r@,
            Rfc3489Attribute::OtherAddress(r) => r@,
        }
    }

    /// An XOR address reader un-XORs with the given transaction id; other
    /// readers need none.
    pub open spec fn uses_transaction_id(&self, transaction_id: u128) -> bool {
        match self {
            Rfc3489Attribute::XorMappedAddress(r) => r@.1 == transaction_id,
            Rfc3489Attribute::OptXorMappedAddress(r) => r@.1 == transaction_id,
            _ => true,
        }
    }
}

/// Each variant stands for its RFC 3489 / RFC 5389 attribute type, and each
/// of those types is one the iterator knows.
pub proof fn lemma_type_codes(a: Rfc3489Attribute)
    ensures
        a is MappedAddress <==> a.type_code() == 0x0001,
        a is ResponseAddress <==> a.type_code() == 0x0002,
        a is ChangeAddress <==> a.type_code() == 0x0003,
        a is SourceAddress <==> a.type_code() == 0x0004,
        a is ChangedAddress <==> a.type_code() == 0x0005,
        a is Username <==> a.type_code() == 0x0006,
        a is Password <==> a.type_code() == 0x0007,
        a is ReflectedFrom <==> a.type_code() == 0x000B,
        a is Realm <==> a.type_code() == 0x0014,
        a is Nonce <==> a.type_code() == 0x0015,
        a is XorMappedAddress <==> a.type_code() == 0x0020,
        a is OptXorMappedAddress <==> a.type_code() == 0x8020,
        a is Software <==> a.type_code() == 0x8022,
        a is AlternateServer <==> a.type_code() == 0x8023,
        a is ResponseOrigin <==> a.type_code() == 0x802b,
        a is OtherAddress <==> a.type_code() == 0x802c,
        is_known_type(a.type_code()),
{
}

/// A known attribute passes unchanged, an attribute of another type becomes
/// `UnexpectedValue`, and an error passes unchanged.
pub proof fn lemma_known_attribute_meaning(x: AttrView)
    ensures
        x matches Ok((t, v)) ==> (known_attribute(x) == x <==> is_known_type(t)),
        x matches Ok((t, v)) ==> (!is_known_type(t) ==> known_attribute(x) == Err::<(u16, Seq<u8>), ReaderErr>(ReaderErr::UnexpectedValue)),
        x is Err ==> known_attribute(x) == x,
{
}

/// What the iterator makes of one attribute: known types pass, others are
/// `UnexpectedValue`.
pub open spec fn known_attribute(x: AttrView) -> AttrView {
    match x {
        Ok((t, v)) => if is_known_type(t) {
            Ok((t, v))
        } else {
            Err(ReaderErr::UnexpectedValue)
        },
        Err(e) => Err(e),
    }
}

/// What the iterator makes of a sequence of attributes.
pub open spec fn known_attributes(xs: Seq<AttrView>) -> Seq<AttrView> {
    xs.map_values(|x: AttrView| known_attribute(x))
}

/// The view of an item handed out by [`Rfc3489Iterator::next`].
pub open spec fn rfc3489_item_view<'a>(x: Result<Rfc3489Attribute<'a>, ReaderErr>) -> AttrView {
    match x {
        Ok(a) => Ok((a.type_code(), a.value())),
        Err(e) => Err(e),
    }
}

/// Walks the attributes of a message body, handing out a reader for each
/// attribute of a known type.
pub struct Rfc3489Iterator<'a> {
    attr_iter: AttributeIterator<'a>,
    transaction_id: u128,
}

impl<'a> Rfc3489Iterator<'a> {
    /// The attributes still to come.
    pub closed spec fn view(&self) -> Seq<AttrView> {
        known_attributes(self.attr_iter.view())
    }

    /// The transaction id the XOR address readers are given.
    pub closed spec fn transaction_id(&self) -> u128 {
        self.transaction_id
    }

    pub fn new(bytes: &'a [u8], transaction_id: u128) -> (r: Self)
        ensures
            r.view() == known_attributes(typed_attributes(parse_attributes(bytes@))),
            r.transaction_id() == transaction_id,
    {
        Self { attr_iter: AttributeIterator::new(bytes), transaction_id }
    }

    /// Hands out the next attribute, if any: a reader for a known type, or
    /// `UnexpectedValue` for an unknown one, after which iteration goes on.
    pub fn next(&mut self) -> (r: Option<Result<Rfc3489Attribute<'a>, ReaderErr>>)
        ensures
            final(self).transaction_id() == old(self).transaction_id(),
            old(self).view().len() == 0 ==> r is None && final(self).view().len() == 0,
            old(self).view().len() > 0 ==> r is Some && rfc3489_item_view(r->0) == old(
                self,
            ).view()[0] && final(self).view() == old(self).view().drop_first(),
            r matches Some(Ok(a)) ==> a.uses_transaction_id(old(self).transaction_id()),
    {
        let ghost old_attrs = self.attr_iter.view();
        let item = self.attr_iter.next();
        proof {
            if old_attrs.len() > 0 {
                assert(known_attributes(old_attrs.drop_first()) =~= known_attributes(
                    old_attrs,
                ).drop_first());
            }
        }
        match item {
            None => None,
            Some(Err(err)) => Some(Err(err)),
            Some(Ok((typ, bytes))) => match typ {
                0x0001 => Some(Ok(Rfc3489Attribute::MappedAddress(SocketAddrReader::new(bytes)))),
                0x0002 => Some(Ok(Rfc3489Attribute::ResponseAddress(SocketAddrReader::new(bytes)))),
                0x0003 => Some(Ok(Rfc3489Attribute::ChangeAddress(SocketAddrReader::new(bytes)))),
                0x0004 => Some(Ok(Rfc3489Attribute::SourceAddress(SocketAddrReader::new(bytes)))),
                0x0005 => Some(Ok(Rfc3489Attribute::ChangedAddress(SocketAddrReader::new(bytes)))),
                0x0006 => Some(Ok(Rfc3489Attribute::Username(StringReader::new(bytes)))),
                0x0007 => Some(Ok(Rfc3489Attribute::Password(StringReader::new(bytes)))),
                0x000B => Some(Ok(Rfc3489Attribute::ReflectedFrom(SocketAddrReader::new(bytes)))),
                0x0014 => Some(Ok(Rfc3489Attribute::Realm(StringReader::new(bytes)))),
                0x0015 => Some(Ok(Rfc3489Attribute::Nonce(StringReader::new(bytes)))),
                0x0020 => Some(
                    Ok(
                        Rfc3489Attribute::XorMappedAddress(
                            XorSocketAddrReader::new(bytes, self.transaction_id),
                        ),
                    ),
                ),
                0x8020 => Some(
                    Ok(
                        Rfc3489Attribute::OptXorMappedAddress(
                            XorSocketAddrReader::new(bytes, self.transaction_id),
                        ),
                    ),
                ),
                0x8022 => Some(Ok(Rfc3489Attribute::Software(StringReader::new(bytes)))),
                0x8023 => Some(Ok(Rfc3489Attribute::AlternateServer(SocketAddrReader::new(bytes)))),
                0x802b => Some(Ok(Rfc3489Attribute::ResponseOrigin(SocketAddrReader::new(bytes)))),
                0x802c => Some(Ok(Rfc3489Attribute::OtherAddress(SocketAddrReader::new(bytes)))),
                _ => Some(Err(ReaderErr::UnexpectedValue)),
            },
        }
    }

    /// The number of items still to come.
    pub fn count(self) -> (r: usize)
        ensures
            r == self.view().len(),
    {
        self.attr_iter.count()
    }
}

} // verus!
