use vstd::prelude::*;

use crate::bytes::be16;
use crate::message::{ReaderErr, MAGIC_COOKIE};

verus! {

/// A transport address carried in an address attribute.
#[derive(Debug, Clone, Copy, PartialEq, Eq, Structural)]
#[allow(inconsistent_fields)]
pub enum SocketAddr {
    V4 { addr: u32, port: u16 },
    V6 { addr: u128, port: u16 },
}

/// The port of an address.
pub open spec fn port_of(a: SocketAddr) -> u16 {
    match a {
        SocketAddr::V4 { port, .. } => port,
        SocketAddr::V6 { port, .. } => port,
    }
}

impl SocketAddr {
    pub fn port(&self) -> (r: u16)
        ensures
            r == port_of(*self),
    {
        match self {
            SocketAddr::V4 { port, .. } => *port,
            SocketAddr::V6 { port, .. } => *port,
        }
    }
}

/// The value of a byte sequence read in network (big-endian) order.
pub open spec fn be_uint(s: Seq<u8>) -> nat
    decreases s.len(),
{
    if s.len() == 0 {
        0
    } else {
        be_uint(s.drop_last()) * 256 + s.last() as nat
    }
}

/// `256` to the power `n`.
pub open spec fn pow256(n: nat) -> nat
    decreases n,
{
    if n == 0 {
        1
    } else {
        256 * pow256((n - 1) as nat)
    }
}

proof fn lemma_pow256_monotonic(i: nat, j: nat)
    requires
        i <= j,
    ensures
        pow256(i) <= pow256(j),
    decreases j,
{
    if i < j {
        lemma_pow256_monotonic(i, (j - 1) as nat);
    }
}

/// The address an address attribute value holds (RFC 3489, section 11.2.1): one
/// ignored byte, the family (1 for IPv4, 2 for IPv6), a big-endian port, then
/// four or sixteen address bytes. Bytes after the address are ignored.
pub open spec fn socket_address(v: Seq<u8>) -> Result<SocketAddr, ReaderErr> {
    if v.len() < 2 {
        Err(ReaderErr::NotEnoughBytes)
    } else if v[1] == 1 {
        if v.len() < 8 {
            Err(ReaderErr::NotEnoughBytes)
        } else {
            Ok(SocketAddr::V4 { addr: be_uint(v.subrange(4, 8)) as u32, port: be16(v[2], v[3]) as u16 })
        }
    } else if v[1] == 2 {
        if v.len() < 20 {
            Err(ReaderErr::NotEnoughBytes)
        } else {
            Ok(SocketAddr::V6 { addr: be_uint(v.subrange(4, 20)) as u128, port: be16(v[2], v[3]) as u16 })
        }
    } else {
        Err(ReaderErr::UnexpectedValue)
    }
}

/// The key an IPv6 address is XOR-ed with: the magic cookie followed by the
/// 96-bit transaction id (RFC 5389, section 15.2).
pub open spec fn xor_key_v6(transaction_id: u128) -> u128 {
    ((MAGIC_COOKIE as u128) << 96u128) | (transaction_id & 0xFFFF_FFFF_FFFF_FFFF_FFFF_FFFFu128)
}

/// XORs port and address with the magic cookie (and, for IPv6, the transaction id).
pub open spec fn xor_address(a: SocketAddr, transaction_id: u128) -> SocketAddr {
    match a {
        SocketAddr::V4 { addr, port } => SocketAddr::V4 {
            addr: addr ^ MAGIC_COOKIE,
            port: port ^ 0x2112u16,
        },
        SocketAddr::V6 { addr, port } => SocketAddr::V6 {
            addr: addr ^ xor_key_v6(transaction_id),
            port: port ^ 0x2112u16,
        },
    }
}

/// The address an XOR-MAPPED-ADDRESS value holds (RFC 5389, section 15.2).
pub open spec fn xor_socket_address(v: Seq<u8>, transaction_id: u128) -> Result<SocketAddr, ReaderErr> {
    match socket_address(v) {
        Ok(a) => Ok(xor_address(a, transaction_id)),
        Err(e) => Err(e),
    }
}

/// XOR-ing an address twice with the same key gives it back.
pub proof fn lemma_xor_address_involution(a: SocketAddr, transaction_id: u128)
    ensures
        xor_address(xor_address(a, transaction_id), transaction_id) == a,
{
    let k = xor_key_v6(transaction_id);
    match a {
        SocketAddr::V4 { addr, port } => {
            assert(addr ^ MAGIC_COOKIE ^ MAGIC_COOKIE == addr) by (bit_vector);
            assert(port ^ 0x2112u16 ^ 0x2112u16 == port) by (bit_vector);
        },
        SocketAddr::V6 { addr, port } => {
            assert(addr ^ k ^ k == addr) by (bit_vector);
            assert(port ^ 0x2112u16 ^ 0x2112u16 == port) by (bit_vector);
        },
    }
}

/// An XOR address reader and a plain address reader over the same value agree
/// up to the XOR: un-XOR-ing what the first reads gives what the second reads,
/// and both fail alike.
pub proof fn lemma_xor_reader_undoes_xor(v: Seq<u8>, transaction_id: u128)
    ensures
        match xor_socket_address(v, transaction_id) {
            Ok(a) => socket_address(v) == Ok::<SocketAddr, ReaderErr>(xor_address(a, transaction_id)),
            Err(e) => socket_address(v) == Err::<SocketAddr, ReaderErr>(e),
        },
{
    if let Ok(a) = socket_address(v) {
        lemma_xor_address_involution(a, transaction_id);
    }
}

/// The port of an address is its `port` field.
pub proof fn lemma_port_meaning(addr4: u32, addr6: u128, port: u16)
    ensures
        port_of((SocketAddr::V4 { addr: addr4, port })) == port,
        port_of((SocketAddr::V6 { addr: addr6, port })) == port,
{
}

/// An address value, said outright: family 1 is IPv4 with the port in bytes
/// 2..4 and the address in bytes 4..8, both high byte first; family 2 is
/// IPv6 with the same port and sixteen address bytes; any other family is
/// `UnexpectedValue`; a value too short for its family is `NotEnoughBytes`.
pub proof fn lemma_socket_address_meaning(v: Seq<u8>)
    ensures
        v.len() < 2 ==> socket_address(v) == Err::<SocketAddr, ReaderErr>(ReaderErr::NotEnoughBytes),
        v.len() >= 2 && v[1] != 1 && v[1] != 2 ==> socket_address(v) == Err::<SocketAddr, ReaderErr>(ReaderErr::UnexpectedValue),
        v.len() >= 2 && v[1] == 1 && v.len() < 8 ==> socket_address(v) == Err::<SocketAddr, ReaderErr>(ReaderErr::NotEnoughBytes),
        v.len() >= 2 && v[1] == 2 && v.len() < 20 ==> socket_address(v) == Err::<SocketAddr, ReaderErr>(ReaderErr::NotEnoughBytes),
        v.len() >= 8 && v[1] == 1 ==> socket_address(v) == Ok::<SocketAddr, ReaderErr>((SocketAddr::V4 {
            addr: (v[4] as int * 0x100_0000 + v[5] as int * 0x1_0000 + v[6] as int * 0x100 + v[7] as int) as u32,
            port: (v[2] as int * 256 + v[3] as int) as u16,
        })),
        v.len() >= 20 && v[1] == 2 ==> (socket_address(v) matches Ok(SocketAddr::V6 { addr, port })
            && port as int == v[2] as int * 256 + v[3] as int
            && addr as int == be_uint(v.subrange(4, 20))),
{
    if v.len() >= 8 && v[1] == 1 {
        let w = v.subrange(4, 8);
        reveal_with_fuel(be_uint, 5);
        assert(w.drop_last().drop_last().drop_last().drop_last() =~= Seq::<u8>::empty());
        assert(w.drop_last().drop_last().drop_last().last() == v[4]);
        assert(w.drop_last().drop_last().last() == v[5]);
        assert(w.drop_last().last() == v[6]);
        assert(w.last() == v[7]);
        assert(be_uint(w) == v[4] as int * 0x100_0000 + v[5] as int * 0x1_0000 + v[6] as int * 0x100 + v[7] as int);
    }
    if v.len() >= 20 && v[1] == 2 {
        lemma_be_uint_bound(v.subrange(4, 20));
        reveal_with_fuel(pow256, 17);
    }
}

/// A number read from `n` bytes is below `256^n`.
pub proof fn lemma_be_uint_bound(s: Seq<u8>)
    ensures
        be_uint(s) < pow256(s.len()),
    decreases s.len(),
{
    if s.len() > 0 {
        lemma_be_uint_bound(s.drop_last());
    }
}

/// Reading bytes in network order: appending a byte shifts what was read one
/// byte up and adds the new byte.
pub proof fn lemma_be_uint_push(s: Seq<u8>, b: u8)
    ensures
        be_uint(s.push(b)) == be_uint(s) * 256 + b,
        be_uint(Seq::<u8>::empty()) == 0,
{
    assert(s.push(b).drop_last() =~= s);
}

/// The XOR-ed address, said outright: the port is XOR-ed with the top half of
/// the magic cookie, an IPv4 address with the magic cookie, and an IPv6
/// address with the magic cookie followed by the low 96 bits of the
/// transaction id.
pub proof fn lemma_xor_meaning(addr4: u32, addr6: u128, port: u16, transaction_id: u128)
    ensures
        xor_address((SocketAddr::V4 { addr: addr4, port }), transaction_id) == (SocketAddr::V4 {
            addr: addr4 ^ 0x2112A442u32,
            port: port ^ 0x2112u16,
        }),
        (xor_address((SocketAddr::V6 { addr: addr6, port }), transaction_id) matches SocketAddr::V6 { addr, port: p }
            && p == port ^ 0x2112u16
            && (addr ^ addr6) >> 96u128 == 0x2112A442u128
            && (addr ^ addr6) & 0xFFFF_FFFF_FFFF_FFFF_FFFF_FFFFu128 == transaction_id & 0xFFFF_FFFF_FFFF_FFFF_FFFF_FFFFu128),
{
    let k = xor_key_v6(transaction_id);
    assert(k == ((0x2112A442u128) << 96u128) | (transaction_id & 0xFFFF_FFFF_FFFF_FFFF_FFFF_FFFFu128));
    assert((addr6 ^ k) ^ addr6 == k) by (bit_vector);
    assert(k >> 96u128 == 0x2112A442u128 && k & 0xFFFF_FFFF_FFFF_FFFF_FFFF_FFFFu128 == transaction_id & 0xFFFF_FFFF_FFFF_FFFF_FFFF_FFFFu128) by (bit_vector)
        requires k == ((0x2112A442u128) << 96u128) | (transaction_id & 0xFFFF_FFFF_FFFF_FFFF_FFFF_FFFFu128);
}

/// Reads `n <= 16` bytes at `start` as a big-endian number.
fn read_be(bytes: &[u8], start: usize, n: usize) -> (r: u128)
    requires
        start + n <= bytes@.len(),
        n <= 16,
    ensures
        r == be_uint(bytes@.subrange(start as int, start + n)),
        r < pow256(n as nat),
{
    let mut acc: u128 = 0;
    let mut i: usize = 0;
    proof {
        assert(bytes@.subrange(start as int, start as int) =~= Seq::<u8>::empty());
        reveal_with_fuel(pow256, 17);
        assert(pow256(16) == 0x1_0000_0000_0000_0000_0000_0000_0000_0000);
    }
    while i < n
        invariant
            i <= n,
            n <= 16,
            start + n <= bytes@.len(),
            bytes@.len() == bytes.len(),
            acc == be_uint(bytes@.subrange(start as int, start + i)),
            acc < pow256(i as nat),
            pow256(16) == 0x1_0000_0000_0000_0000_0000_0000_0000_0000,
        decreases n - i,
    {
        proof {
            lemma_pow256_monotonic((i + 1) as nat, 16);
            assert(bytes@.subrange(start as int, start + i + 1).drop_last() =~= bytes@.subrange(
                start as int,
                start + i,
            ));
        }
        acc = acc * 256 + bytes[start + i] as u128;
        i = i + 1;
    }
    acc
}

/// Reads an address attribute value (MAPPED-ADDRESS and its kin).
pub struct SocketAddrReader<'a> {
    bytes: &'a [u8],
}

impl<'a> View for SocketAddrReader<'a> {
    type V = Seq<u8>;

    closed spec fn view(&self) -> Seq<u8> {
        self.bytes@
    }
}

impl<'a> SocketAddrReader<'a> {
    pub fn new(bytes: &'a [u8]) -> (r: Self)
        ensures
            r@ == bytes@,
    {
        Self { bytes }
    }

    pub fn get_address(&self) -> (r: Result<SocketAddr, ReaderErr>)
        ensures
            r == socket_address(self@),
    {
        read_socket_address(self.bytes)
    }
}

fn read_socket_address(v: &[u8]) -> (r: Result<SocketAddr, ReaderErr>)
    ensures
        r == socket_address(v@),
{
    if v.len() < 2 {
        return Err(ReaderErr::NotEnoughBytes);
    }
    if v[1] == 1 {
        if v.len() < 8 {
            return Err(ReaderErr::NotEnoughBytes);
        }
        let port = (v[2] as u16) * 256 + v[3] as u16;
        let addr = read_be(v, 4, 4);
        proof {
            reveal_with_fuel(pow256, 5);
            assert(pow256(4) == 0x1_0000_0000);
        }
        Ok(SocketAddr::V4 { addr: addr as u32, port })
    } else if v[1] == 2 {
        if v.len() < 20 {
            return Err(ReaderErr::NotEnoughBytes);
        }
        let port = (v[2] as u16) * 256 + v[3] as u16;
        let addr = read_be(v, 4, 16);
        Ok(SocketAddr::V6 { addr, port })
    } else {
        Err(ReaderErr::UnexpectedValue)
    }
}

/// Reads an XOR-MAPPED-ADDRESS value, undoing the XOR with the magic cookie
/// and the message's transaction id.
pub struct XorSocketAddrReader<'a> {
    bytes: &'a [u8],
    transaction_id: u128,
}

impl<'a> View for XorSocketAddrReader<'a> {
    type V = (Seq<u8>, u128);

    closed spec fn view(&self) -> (Seq<u8>, u128) {
        (self.bytes@, self.transaction_id)
    }
}

impl<'a> XorSocketAddrReader<'a> {
    pub fn new(bytes: &'a [u8], transaction_id: u128) -> (r: Self)
        ensures
            r@ == (bytes@, transaction_id),
    {
        Self { bytes, transaction_id }
    }

    pub fn get_address(&self) -> (r: Result<SocketAddr, ReaderErr>)
        ensures
            r == xor_socket_address(self@.0, self@.1),
    {
        match read_socket_address(self.bytes) {
            Ok(SocketAddr::V4 { addr, port }) => Ok(
                SocketAddr::V4 { addr: addr ^ MAGIC_COOKIE, port: port ^ 0x2112u16 },
            ),
            Ok(SocketAddr::V6 { addr, port }) => {
                let key: u128 = ((MAGIC_COOKIE as u128) << 96u128) | (self.transaction_id
                    & 0xFFFF_FFFF_FFFF_FFFF_FFFF_FFFFu128);
                Ok(SocketAddr::V6 { addr: addr ^ key, port: port ^ 0x2112u16 })
            },
            Err(e) => Err(e),
        }
    }
}

/// Reads a text attribute value (USERNAME, REALM, SOFTWARE, ...).
pub struct StringReader<'a> {
    bytes: &'a [u8],
}

impl<'a> View for StringReader<'a> {
    type V = Seq<u8>;

    closed spec fn view(&self) -> Seq<u8> {
        self.bytes@
    }
}

impl<'a> StringReader<'a> {
    pub fn new(bytes: &'a [u8]) -> (r: Self)
        ensures
            r@ == bytes@,
    {
        Self { bytes }
    }

    /// The raw value bytes.
    pub fn get_bytes(&self) -> (r: &'a [u8])
        ensures
            r@ == self@,
    {
        self.bytes
    }

    /// The value as text; fails unless the bytes are well-formed UTF-8.
    pub fn get_string(&self) -> (r: Result<&'a str, core::str::Utf8Error>)
        ensures
            r is Ok <==> vstd::utf8::valid_utf8(self@),
            r matches Ok(s) ==> s@ == vstd::utf8::decode_utf8(self@),
    {
        str_from_utf8(self.bytes)
    }
}

/// `core::str::Utf8Error`, the error of a failed UTF-8 decoding.
#[verifier::external_type_specification]
#[verifier::external_body]
pub struct ExUtf8Error(core::str::Utf8Error);

/// Calls `core::str::from_utf8`. As std documents it, the call succeeds exactly
/// when the bytes are well-formed UTF-8 (no overlong forms, no surrogates, no
/// truncated sequences), and the string it returns is those bytes, so its
/// characters are their UTF-8 decoding.
#[verifier::external_body]
pub(crate) fn str_from_utf8<'a>(v: &'a [u8]) -> (r: Result<&'a str, core::str::Utf8Error>)
    ensures
        r is Ok <==> vstd::utf8::valid_utf8(v@),
        r matches Ok(s) ==> s@ == vstd::utf8::decode_utf8(v@),
{
    core::str::from_utf8(v)
}

} // verus!
