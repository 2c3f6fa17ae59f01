use vstd::prelude::*;

use crate::bytes::{be16_at, slice_as_array, u16_from_be};

verus! {

/// Why a field could not be read.
#[derive(Debug, Clone, Copy, PartialEq, Eq, Structural)]
pub enum ReaderErr {
    NotEnoughBytes,
    UnexpectedValue,
}

/// The message method. `Binding` is the only method the RFCs define.
#[derive(Debug, Clone, Copy, PartialEq, Eq, Structural)]
pub enum Method {
    Binding,
}

/// The message class, carried by the two class bits of the message type.
#[derive(Debug, Clone, Copy, PartialEq, Eq, Structural)]
pub enum Class {
    Request,
    Indirection,
    SuccessResponse,
    ErrorResponse,
}

/// A reader over the bytes of one STUN message.
pub struct MsgReader<'a> {
    bytes: &'a [u8],
}

impl<'a> View for MsgReader<'a> {
    type V = Seq<u8>;

    closed spec fn view(&self) -> Seq<u8> {
        self.bytes@
    }
}


/// The STUN magic cookie (RFC 5389, section 6).
pub const MAGIC_COOKIE: u32 = 0x2112A442;

/// The two message-type bytes.
pub open spec fn message_type_field(msg: Seq<u8>) -> Seq<u8> {
    msg.subrange(0, 2)
}

/// The two message-length bytes.
pub open spec fn message_length_field(msg: Seq<u8>) -> Seq<u8> {
    msg.subrange(2, 4)
}

/// The four magic-cookie bytes.
pub open spec fn magic_cookie_field(msg: Seq<u8>) -> Seq<u8> {
    msg.subrange(4, 8)
}

/// The twelve transaction-id bytes.
pub open spec fn transaction_id_field(msg: Seq<u8>) -> Seq<u8> {
    msg.subrange(8, 20)
}

/// Everything after the fixed header.
pub open spec fn attributes_field(msg: Seq<u8>) -> Seq<u8> {
    msg.subrange(20, msg.len() as int)
}

/// The message type as a number.
pub open spec fn message_type_value(msg: Seq<u8>) -> u16 {
    be16_at(msg, 0)
}

/// The method bits of a message type: all but the two top bits and the
/// two class bits (bits 4 and 8).
pub open spec fn method_bits(t: u16) -> u16 {
    t & 0x3EEF
}

/// The method a message type names, if any.
pub open spec fn method_of(t: u16) -> Result<Method, ReaderErr> {
    if method_bits(t) == 1 {
        Ok(Method::Binding)
    } else {
        Err(ReaderErr::UnexpectedValue)
    }
}

/// The class a message type names: bit 8 is C1, bit 4 is C0.
pub open spec fn class_of(t: u16) -> Class {
    if t & 0x0100 == 0 {
        if t & 0x0010 == 0 { Class::Request } else { Class::Indirection }
    } else {
        if t & 0x0010 == 0 { Class::SuccessResponse } else { Class::ErrorResponse }
    }
}

/// The five header readers cover a message exactly: type, length, cookie,
/// transaction id and attributes, in that order, make up the whole message.
pub proof fn lemma_header_fields_cover_message(msg: Seq<u8>)
    requires
        msg.len() >= 20,
    ensures
        msg == message_type_field(msg) + message_length_field(msg) + magic_cookie_field(msg)
            + transaction_id_field(msg) + attributes_field(msg),
{
    assert(msg =~= message_type_field(msg) + message_length_field(msg) + magic_cookie_field(msg)
        + transaction_id_field(msg) + attributes_field(msg));
}

/// The method ignores the two top bits and the two class bits: flipping any
/// of them leaves the method as it was.
pub proof fn lemma_method_ignores_class_bits(t: u16, flips: u16)
    requires
        flips & 0x3EEF == 0,
    ensures
        method_of(t ^ flips) == method_of(t),
{
    assert((t ^ flips) & 0x3EEF == t & 0x3EEF) by (bit_vector)
        requires
            flips & 0x3EEF == 0,
    ;
}

/// The class depends on the two class bits alone: flipping any other bit
/// leaves the class as it was.
pub proof fn lemma_class_ignores_method_bits(t: u16, flips: u16)
    requires
        flips & 0x0110 == 0,
    ensures
        class_of(t ^ flips) == class_of(t),
{
    assert((t ^ flips) & 0x0100 == t & 0x0100 && (t ^ flips) & 0x0010 == t & 0x0010) by (bit_vector)
        requires
            flips & 0x0110 == 0,
    ;
}

/// The message type is the first two bytes read in network order: its high
/// byte is the first byte and its low byte the second.
pub proof fn lemma_message_type_is_big_endian(msg: Seq<u8>)
    requires
        msg.len() >= 2,
    ensures
        message_type_value(msg) as int == msg[0] as int * 256 + msg[1] as int,
        message_type_value(msg) / 256 == msg[0],
        message_type_value(msg) % 256 == msg[1],
{
}

/// Binding is the method whose method bits (all bits but the two top bits
/// and the class bits 4 and 8) are exactly 1; every other pattern of method
/// bits is refused as `UnexpectedValue`.
pub proof fn lemma_method_meaning(t: u16)
    ensures
        method_of(t) == Ok::<Method, ReaderErr>(Method::Binding) <==> t & 0x3EEF == 1,
        t & 0x3EEF != 1 ==> method_of(t) == Err::<Method, ReaderErr>(ReaderErr::UnexpectedValue),
{
}

/// The class is read from bit 8 (C1) and bit 4 (C0): 00 request, 01
/// indication, 10 success response, 11 error response.
pub proof fn lemma_class_meaning(t: u16)
    ensures
        class_of(t) == Class::Request <==> t & 0x0110 == 0,
        class_of(t) == Class::Indirection <==> t & 0x0110 == 0x0010,
        class_of(t) == Class::SuccessResponse <==> t & 0x0110 == 0x0100,
        class_of(t) == Class::ErrorResponse <==> t & 0x0110 == 0x0110,
{
    assert((t & 0x0110 == 0 <==> (t & 0x0100 == 0 && t & 0x0010 == 0))
        && (t & 0x0110 == 0x0010 <==> (t & 0x0100 == 0 && t & 0x0010 != 0))
        && (t & 0x0110 == 0x0100 <==> (t & 0x0100 != 0 && t & 0x0010 == 0))
        && (t & 0x0110 == 0x0110 <==> (t & 0x0100 != 0 && t & 0x0010 != 0))) by (bit_vector);
}

impl<'a> MsgReader<'a> {
    pub fn get_message_type_raw(&self) -> (r: Result<&[u8; 2], ReaderErr>)
        ensures
            match r {
                Ok(b) => self@.len() >= 2 && b@ == message_type_field(self@),
                Err(e) => self@.len() < 2 && e == ReaderErr::NotEnoughBytes,
            },
    {
        if self.bytes.len() >= 2 {
            Ok(slice_as_array(&self.bytes[0..2]))
        } else {
            Err(ReaderErr::NotEnoughBytes)
        }
    }

    pub fn get_message_length_raw(&self) -> (r: Result<&[u8; 2], ReaderErr>)
        ensures
            match r {
                Ok(b) => self@.len() >= 4 && b@ == message_length_field(self@),
                Err(e) => self@.len() < 4 && e == ReaderErr::NotEnoughBytes,
            },
    {
        if self.bytes.len() >= 4 {
            Ok(slice_as_array(&self.bytes[2..4]))
        } else {
            Err(ReaderErr::NotEnoughBytes)
        }
    }

    pub fn get_magic_cookie_raw(&self) -> (r: Result<&[u8; 4], ReaderErr>)
        ensures
            match r {
                Ok(b) => self@.len() >= 8 && b@ == magic_cookie_field(self@),
                Err(e) => self@.len() < 8 && e == ReaderErr::NotEnoughBytes,
            },
    {
        if self.bytes.len() >= 8 {
            Ok(slice_as_array(&self.bytes[4..8]))
        } else {
            Err(ReaderErr::NotEnoughBytes)
        }
    }

    pub fn get_transaction_id_raw(&self) -> (r: Result<&[u8; 12], ReaderErr>)
        ensures
            match r {
                Ok(b) => self@.len() >= 20 && b@ == transaction_id_field(self@),
                Err(e) => self@.len() < 20 && e == ReaderErr::NotEnoughBytes,
            },
    {
        if self.bytes.len() >= 20 {
            Ok(slice_as_array(&self.bytes[8..20]))
        } else {
            Err(ReaderErr::NotEnoughBytes)
        }
    }

    pub fn get_attributes_raw(&self) -> (r: Result<&[u8], ReaderErr>)
        ensures
            match r {
                Ok(b) => self@.len() >= 20 && b@ == attributes_field(self@),
                Err(e) => self@.len() < 20 && e == ReaderErr::NotEnoughBytes,
            },
    {
        if self.bytes.len() >= 20 {
            Ok(&self.bytes[20..self.bytes.len()])
        } else {
            Err(ReaderErr::NotEnoughBytes)
        }
    }

    pub fn new(bytes: &'a [u8]) -> (r: MsgReader<'a>)
        ensures
            r@ == bytes@,
    {
        MsgReader { bytes }
    }

    /// Gets the message method, ignoring the two top bits and the two class bits.
    ///
    /// Fails with `NotEnoughBytes` when the message is shorter than two bytes, and
    /// with `UnexpectedValue` when the method bits name no known method.
    pub fn get_method(&self) -> (r: Result<Method, ReaderErr>)
        ensures
            r == if self@.len() < 2 {
                Err(ReaderErr::NotEnoughBytes)
            } else {
                method_of(message_type_value(self@))
            },
    {
        let b = match self.get_message_type_raw() {
            Ok(b) => b,
            Err(e) => return Err(e),
        };
        let method_raw = u16_from_be(b) & 0b0011111011101111u16;
        if method_raw == 1 {
            Ok(Method::Binding)
        } else {
            Err(ReaderErr::UnexpectedValue)
        }
    }

    /// Gets the message class from the two class bits; every message of at
    /// least two bytes has one.
    pub fn get_class(&self) -> (r: Result<Class, ReaderErr>)
        ensures
            r == if self@.len() < 2 {
                Err(ReaderErr::NotEnoughBytes)
            } else {
                Ok(class_of(message_type_value(self@)))
            },
    {
        let b = match self.get_message_type_raw() {
            Ok(b) => b,
            Err(e) => return Err(e),
        };
        let t = u16_from_be(b);
        let class_raw = t & 0b0000000100010000u16;
        proof {
            assert(class_raw == 0 || class_raw == 0x10 || class_raw == 0x100 || class_raw == 0x110)
                by (bit_vector)
                requires class_raw == t & 0x0110u16;
            assert((class_raw == 0 ==> t & 0x0100 == 0 && t & 0x0010 == 0)
                && (class_raw == 0x10 ==> t & 0x0100 == 0 && t & 0x0010 != 0)
                && (class_raw == 0x100 ==> t & 0x0100 != 0 && t & 0x0010 == 0)
                && (class_raw == 0x110 ==> t & 0x0100 != 0 && t & 0x0010 != 0))
                by (bit_vector)
                requires class_raw == t & 0x0110u16;
        }
        match class_raw {
            0b000000000 => Ok(Class::Request),
            0b000010000 => Ok(Class::Indirection),
            0b100000000 => Ok(Class::SuccessResponse),
            0b100010000 => Ok(Class::ErrorResponse),
            _ => Err(ReaderErr::UnexpectedValue),
        }
    }

    /// Gets the message length declared in the header.
    pub fn get_message_length(&self) -> (r: Result<u16, ReaderErr>)
        ensures
            r == if self@.len() < 4 {
                Err(ReaderErr::NotEnoughBytes)
            } else {
                Ok(be16_at(self@, 2))
            },
    {
        let b = match self.get_message_length_raw() {
            Ok(b) => b,
            Err(e) => return Err(e),
        };
        Ok(u16_from_be(b))
    }
}

} // verus!
