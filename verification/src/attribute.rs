use vstd::prelude::*;

use crate::bytes::{be16, slice_as_array, u16_from_be};
use crate::message::ReaderErr;

verus! {

/// One attribute as the raw iterator sees it: type bytes, length bytes, value bytes.
pub type RawAttrView = Result<(Seq<u8>, Seq<u8>, Seq<u8>), ReaderErr>;

/// One attribute as the typed iterator sees it: type number and value bytes.
pub type AttrView = Result<(u16, Seq<u8>), ReaderErr>;

/// The attributes encoded in `s`, in order: each is a 2-byte type, a 2-byte
/// big-endian value length and that many value bytes. An attribute that does
/// not fit in what is left gives one `NotEnoughBytes` and ends the sequence.
pub open spec fn parse_attributes(s: Seq<u8>) -> Seq<RawAttrView>
    decreases s.len(),
{
    if s.len() == 0 {
        seq![]
    } else if s.len() < 4 || s.len() < 4 + be16(s[2], s[3]) {
        seq![Err(ReaderErr::NotEnoughBytes)]
    } else {
        let end = 4 + be16(s[2], s[3]);
        seq![Ok((s.subrange(0, 2), s.subrange(2, 4), s.subrange(4, end as int)))]
            + parse_attributes(s.subrange(end as int, s.len() as int))
    }
}

/// The typed view of one raw attribute.
pub open spec fn typed_attribute(x: RawAttrView) -> AttrView {
    match x {
        Ok((t, _l, v)) => Ok((be16(t[0], t[1]) as u16, v)),
        Err(e) => Err(e),
    }
}

/// The typed view of a sequence of raw attributes.
pub open spec fn typed_attributes(xs: Seq<RawAttrView>) -> Seq<AttrView> {
    xs.map_values(|x: RawAttrView| typed_attribute(x))
}

/// The view of an item handed out by [`RawAttributeIterator::next`].
pub open spec fn raw_item_view<'a>(
    x: Result<(&'a [u8; 2], &'a [u8; 2], &'a [u8]), ReaderErr>,
) -> RawAttrView {
    match x {
        Ok((t, l, v)) => Ok((t@, l@, v@)),
        Err(e) => Err(e),
    }
}

/// The view of an item handed out by [`AttributeIterator::next`].
pub open spec fn item_view<'a>(x: Result<(u16, &'a [u8]), ReaderErr>) -> AttrView {
    match x {
        Ok((t, v)) => Ok((t, v@)),
        Err(e) => Err(e),
    }
}

/// Each attribute, or the error that ends the sequence, uses up at least one byte.
pub proof fn lemma_parse_attributes_len(s: Seq<u8>)
    ensures
        parse_attributes(s).len() <= s.len(),
    decreases s.len(),
{
    if s.len() >= 4 && s.len() >= 4 + be16(s[2], s[3]) {
        let end = 4 + be16(s[2], s[3]);
        lemma_parse_attributes_len(s.subrange(end as int, s.len() as int));
    }
}

/// The encoding of one attribute with type `t` and value `v`.
pub open spec fn encode_attribute(t: u16, v: Seq<u8>) -> Seq<u8> {
    seq![(t / 256) as u8, (t % 256) as u8, (v.len() / 256) as u8, (v.len() % 256) as u8] + v
}

/// The encodings of a sequence of attributes, one after the other.
pub open spec fn encode_attributes(attrs: Seq<(u16, Seq<u8>)>) -> Seq<u8>
    decreases attrs.len(),
{
    if attrs.len() == 0 {
        seq![]
    } else {
        encode_attribute(attrs[0].0, attrs[0].1) + encode_attributes(attrs.drop_first())
    }
}

/// Reading back a sequence of encoded attributes, each with a value of at
/// most 65535 bytes, gives each attribute's type and value, in order, and
/// nothing else.
pub proof fn lemma_parse_encoded_attributes(attrs: Seq<(u16, Seq<u8>)>)
    requires
        forall|i: int| 0 <= i < attrs.len() ==> (#[trigger] attrs[i]).1.len() <= 0xFFFF,
    ensures
        typed_attributes(parse_attributes(encode_attributes(attrs))) == attrs.map_values(
            |a: (u16, Seq<u8>)| Ok::<(u16, Seq<u8>), ReaderErr>(a),
        ),
    decreases attrs.len(),
{
    let oks = attrs.map_values(|a: (u16, Seq<u8>)| Ok::<(u16, Seq<u8>), ReaderErr>(a));
    if attrs.len() == 0 {
        assert(encode_attributes(attrs) =~= Seq::<u8>::empty());
        assert(typed_attributes(parse_attributes(encode_attributes(attrs))) =~= oks);
    } else {
        let (t, v) = attrs[0];
        let rest = attrs.drop_first();
        assert forall|i: int| 0 <= i < rest.len() implies (#[trigger] rest[i]).1.len() <= 0xFFFF by {
            assert(rest[i] == attrs[i + 1]);
        }
        lemma_parse_encoded_attributes(rest);
        let e = encode_attributes(attrs);
        let head = encode_attribute(t, v);
        let tail = encode_attributes(rest);
        assert(e == head + tail);
        assert(be16(e[2], e[3]) == v.len());
        assert(be16(e[0], e[1]) == t);
        let end = 4 + v.len();
        assert(e.subrange(end as int, e.len() as int) =~= tail);
        assert(e.subrange(4, end as int) =~= v);
        let first = Ok((e.subrange(0, 2), e.subrange(2, 4), e.subrange(4, end as int)));
        assert(parse_attributes(e) == seq![first] + parse_attributes(tail));
        assert(typed_attribute(first) == Ok::<(u16, Seq<u8>), ReaderErr>((t, v)));
        assert(typed_attributes(seq![first] + parse_attributes(tail)) =~= seq![
            typed_attribute(first),
        ] + typed_attributes(parse_attributes(tail)));
        assert(oks =~= seq![Ok::<(u16, Seq<u8>), ReaderErr>((t, v))] + rest.map_values(
            |a: (u16, Seq<u8>)| Ok::<(u16, Seq<u8>), ReaderErr>(a),
        ));
    }
}

/// The first attribute of a body: nothing when the body is empty; the type
/// (first two bytes, high byte first), the declared length (next two bytes,
/// high byte first) and that many value bytes when they are all there; and
/// `NotEnoughBytes`, with nothing after it, when they are not.
pub proof fn lemma_first_attribute(s: Seq<u8>)
    ensures
        s.len() == 0 ==> parse_attributes(s).len() == 0,
        s.len() > 0 ==> parse_attributes(s).len() > 0,
        ({
            let n = s[2] as int * 256 + s[3] as int;
            s.len() >= 4 && s.len() >= 4 + n ==> {
                &&& parse_attributes(s)[0] == Ok::<(Seq<u8>, Seq<u8>, Seq<u8>), ReaderErr>(
                    (s.subrange(0, 2), s.subrange(2, 4), s.subrange(4, 4 + n)),
                )
                &&& typed_attributes(parse_attributes(s))[0] == Ok::<(u16, Seq<u8>), ReaderErr>(
                    ((s[0] as int * 256 + s[1] as int) as u16, s.subrange(4, 4 + n)),
                )
            }
        }),
        (0 < s.len() < 4 || (s.len() >= 4 && s.len() < 4 + s[2] as int * 256 + s[3] as int))
            ==> parse_attributes(s) == seq![Err::<(Seq<u8>, Seq<u8>, Seq<u8>), ReaderErr>(ReaderErr::NotEnoughBytes)],
{
    if s.len() >= 4 && s.len() >= 4 + be16(s[2], s[3]) {
        let end = 4 + be16(s[2], s[3]);
        let first = Ok::<(Seq<u8>, Seq<u8>, Seq<u8>), ReaderErr>(
            (s.subrange(0, 2), s.subrange(2, 4), s.subrange(4, end as int)),
        );
        assert(parse_attributes(s)[0] == first);
        assert(s.subrange(0, 2)[0] == s[0] && s.subrange(0, 2)[1] == s[1]);
    }
}

/// An error ends the attributes: nothing follows it.
pub proof fn lemma_error_is_last(s: Seq<u8>, i: int)
    requires
        0 <= i < parse_attributes(s).len(),
        parse_attributes(s)[i] is Err,
    ensures
        i == parse_attributes(s).len() - 1,
    decreases s.len(),
{
    if s.len() >= 4 && s.len() >= 4 + be16(s[2], s[3]) {
        let end = 4 + be16(s[2], s[3]);
        let rest = s.subrange(end as int, s.len() as int);
        assert(parse_attributes(s)[i] == parse_attributes(rest)[i - 1]);
        lemma_error_is_last(rest, i - 1);
    }
}

/// Walks the attributes of a message body, handing out their raw fields.
pub struct RawAttributeIterator<'a> {
    bytes: &'a [u8],
    idx: usize,
}

impl<'a> RawAttributeIterator<'a> {
    #[verifier::type_invariant]
    spec fn inv(self) -> bool {
        self.idx <= self.bytes@.len()
    }

    /// The attributes still to come.
    pub closed spec fn view(&self) -> Seq<RawAttrView> {
        parse_attributes(self.bytes@.subrange(self.idx as int, self.bytes@.len() as int))
    }

    pub fn new(bytes: &'a [u8]) -> (r: Self)
        ensures
            r.view() == parse_attributes(bytes@),
    {
        proof {
            assert(bytes@.subrange(0, bytes@.len() as int) =~= bytes@);
        }
        Self { bytes, idx: 0 }
    }

    /// Hands out the next attribute, if any. After an error nothing follows.
    pub fn next(&mut self) -> (r: Option<Result<(&'a [u8; 2], &'a [u8; 2], &'a [u8]), ReaderErr>>)
        ensures
            old(self).view().len() == 0 ==> r is None && final(self).view().len() == 0,
            old(self).view().len() > 0 ==> r is Some && raw_item_view(r->0) == old(self).view()[0]
                && final(self).view() == old(self).view().drop_first(),
    {
        proof {
            use_type_invariant(&*self);
        }
        let bytes: &'a [u8] = self.bytes;
        let len = bytes.len();
        let idx = self.idx;
        let ghost s = bytes@.subrange(idx as int, len as int);
        proof {
            assert(bytes@.subrange(len as int, len as int) =~= Seq::<u8>::empty());
        }
        if idx >= len {
            return None;
        }
        let rem = len - idx;
        if rem < 2 {
            self.idx = len;
            return Some(Err(ReaderErr::NotEnoughBytes));
        }
        let typ_raw: &'a [u8; 2] = slice_as_array(&bytes[idx..idx + 2]);
        if rem < 4 {
            self.idx = len;
            return Some(Err(ReaderErr::NotEnoughBytes));
        }
        let val_len_raw: &'a [u8; 2] = slice_as_array(&bytes[idx + 2..idx + 4]);
        let val_len = u16_from_be(val_len_raw) as usize;
        proof {
            assert(s[2] == val_len_raw@[0] && s[3] == val_len_raw@[1]);
        }
        if val_len > rem - 4 {
            self.idx = len;
            return Some(Err(ReaderErr::NotEnoughBytes));
        }
        let val_raw: &'a [u8] = &bytes[idx + 4..idx + 4 + val_len];
        self.idx = idx + 4 + val_len;
        proof {
            let end = 4 + val_len;
            assert(s.subrange(0, 2) =~= typ_raw@);
            assert(s.subrange(2, 4) =~= val_len_raw@);
            assert(s.subrange(4, end as int) =~= val_raw@);
            assert(s.subrange(end as int, s.len() as int) =~= bytes@.subrange(
                self.idx as int,
                len as int,
            ));
        }
        Some(Ok((typ_raw, val_len_raw, val_raw)))
    }

    /// The number of items still to come.
    pub fn count(self) -> (r: usize)
        ensures
            r == self.view().len(),
    {
        proof {
            use_type_invariant(&self);
            lemma_parse_attributes_len(
                self.bytes@.subrange(self.idx as int, self.bytes@.len() as int),
            );
        }
        let _ = self.bytes.len();
        let ghost total = self.view().len();
        let mut it = self;
        let mut n: usize = 0;
        loop
            invariant
                n + it.view().len() == total,
                total == self.view().len(),
                total <= usize::MAX,
            decreases it.view().len(),
        {
            match it.next() {
                None => return n,
                Some(_) => {
                    n = n + 1;
                },
            }
        }
    }
}

/// Walks the attributes of a message body, handing out type and value.
pub struct AttributeIterator<'a> {
    raw_iter: RawAttributeIterator<'a>,
}

impl<'a> AttributeIterator<'a> {
    /// The attributes still to come.
    pub closed spec fn view(&self) -> Seq<AttrView> {
        typed_attributes(self.raw_iter.view())
    }

    pub fn new(bytes: &'a [u8]) -> (r: Self)
        ensures
            r.view() == typed_attributes(parse_attributes(bytes@)),
    {
        Self { raw_iter: RawAttributeIterator::new(bytes) }
    }

    /// Hands out the next attribute, if any. After an error nothing follows.
    pub fn next(&mut self) -> (r: Option<Result<(u16, &'a [u8]), ReaderErr>>)
        ensures
            old(self).view().len() == 0 ==> r is None && final(self).view().len() == 0,
            old(self).view().len() > 0 ==> r is Some && item_view(r->0) == old(self).view()[0]
                && final(self).view() == old(self).view().drop_first(),
    {
        let ghost old_raw = self.raw_iter.view();
        match self.raw_iter.next() {
            None => None,
            Some(Err(err)) => {
                proof {
                    assert(typed_attributes(old_raw.drop_first()) =~= typed_attributes(
                        old_raw,
                    ).drop_first());
                }
                Some(Err(err))
            },
            Some(Ok((typ_raw, _, val_raw))) => {
                let typ = u16_from_be(typ_raw);
                proof {
                    assert(typed_attributes(old_raw.drop_first()) =~= typed_attributes(
                        old_raw,
                    ).drop_first());
                }
                Some(Ok((typ, val_raw)))
            },
        }
    }

    /// The number of items still to come.
    pub fn count(self) -> (r: usize)
        ensures
            r == self.view().len(),
    {
        self.raw_iter.count()
    }
}


/// Whether an agent must understand an attribute type (RFC 5389, section 15):
/// types below 0x8000 are comprehension-required.
#[derive(Debug, Clone, Copy, PartialEq, Eq, Structural)]
pub enum ComprehensionCategory {
    Required,
    Optional,
}

/// The comprehension category of a type whose first byte is `b`.
pub open spec fn comprehension_of(b: u8) -> ComprehensionCategory {
    if b <= 0x7F {
        ComprehensionCategory::Required
    } else {
        ComprehensionCategory::Optional
    }
}

/// Types from 0x8000 up (first type byte 0x80 or more) are
/// comprehension-optional; types below 0x8000 are comprehension-required.
pub proof fn lemma_comprehension_meaning(hi: u8, lo: u8)
    ensures
        comprehension_of(hi) == ComprehensionCategory::Optional <==> hi >= 0x80,
        comprehension_of(hi) == ComprehensionCategory::Optional <==> be16(hi, lo) >= 0x8000,
        comprehension_of(hi) == ComprehensionCategory::Required <==> be16(hi, lo) < 0x8000,
{
}

/// Field access over the bytes of one encoded attribute (type, length, value).
pub trait GenericAttribute<'a> {
    /// The encoded attribute.
    spec fn attribute_bytes(&self) -> Seq<u8>;

    fn get_bytes_raw(&'a self) -> (r: &'a [u8])
        ensures
            r@ == self.attribute_bytes(),
    ;

    fn get_type(&'a self) -> (r: Result<u16, ReaderErr>)
        ensures
            r == if self.attribute_bytes().len() < 2 {
                Err(ReaderErr::NotEnoughBytes)
            } else {
                Ok(be16(self.attribute_bytes()[0], self.attribute_bytes()[1]) as u16)
            },
    {
        match self.get_type_raw() {
            Ok(b) => Ok(u16_from_be(b)),
            Err(e) => Err(e),
        }
    }

    fn get_comprehension_category(&'a self) -> (r: Result<ComprehensionCategory, ReaderErr>)
        ensures
            r == if self.attribute_bytes().len() < 2 {
                Err(ReaderErr::NotEnoughBytes)
            } else {
                Ok(comprehension_of(self.attribute_bytes()[0]))
            },
    {
        let b = match self.get_type_raw() {
            Ok(b) => b,
            Err(e) => return Err(e),
        };
        if b[0] <= 0x7F {
            Ok(ComprehensionCategory::Required)
        } else {
            Ok(ComprehensionCategory::Optional)
        }
    }

    fn get_value_length(&'a self) -> (r: Result<u16, ReaderErr>)
        ensures
            r == if self.attribute_bytes().len() < 4 {
                Err(ReaderErr::NotEnoughBytes)
            } else {
                Ok(be16(self.attribute_bytes()[2], self.attribute_bytes()[3]) as u16)
            },
    {
        match self.get_value_length_raw() {
            Ok(b) => Ok(u16_from_be(b)),
            Err(e) => Err(e),
        }
    }

    fn get_type_raw(&'a self) -> (r: Result<&'a [u8; 2], ReaderErr>)
        ensures
            match r {
                Ok(b) => self.attribute_bytes().len() >= 2 && b@ == self.attribute_bytes().subrange(0, 2),
                Err(e) => self.attribute_bytes().len() < 2 && e == ReaderErr::NotEnoughBytes,
            },
    {
        let bytes = self.get_bytes_raw();
        if bytes.len() >= 2 {
            Ok(slice_as_array(&bytes[0..2]))
        } else {
            Err(ReaderErr::NotEnoughBytes)
        }
    }

    fn get_value_length_raw(&'a self) -> (r: Result<&'a [u8; 2], ReaderErr>)
        ensures
            match r {
                Ok(b) => self.attribute_bytes().len() >= 4 && b@ == self.attribute_bytes().subrange(2, 4),
                Err(e) => self.attribute_bytes().len() < 4 && e == ReaderErr::NotEnoughBytes,
            },
    {
        let bytes = self.get_bytes_raw();
        if bytes.len() >= 4 {
            Ok(slice_as_array(&bytes[2..4]))
        } else {
            Err(ReaderErr::NotEnoughBytes)
        }
    }

    /// The value bytes, as many as the length field declares.
    fn get_value_raw(&'a self) -> (r: Result<&'a [u8], ReaderErr>)
        ensures
            match r {
                Ok(v) => {
                    let s = self.attribute_bytes();
                    &&& s.len() >= 4
                    &&& s.len() >= 4 + be16(s[2], s[3])
                    &&& v@ == s.subrange(4, 4 + be16(s[2], s[3]) as int)
                },
                Err(e) => {
                    let s = self.attribute_bytes();
                    &&& e == ReaderErr::NotEnoughBytes
                    &&& (s.len() < 4 || s.len() < 4 + be16(s[2], s[3]))
                },
            },
    {
        let value_length = match self.get_value_length() {
            Ok(l) => l as usize,
            Err(e) => return Err(e),
        };
        let bytes = self.get_bytes_raw();
        if value_length <= bytes.len() - 4 {
            Ok(&bytes[4..4 + value_length])
        } else {
            Err(ReaderErr::NotEnoughBytes)
        }
    }
}

/// One encoded attribute: type, length and value.
pub struct AttributeReader<'a> {
    bytes: &'a [u8],
}

impl<'a> View for AttributeReader<'a> {
    type V = Seq<u8>;

    closed spec fn view(&self) -> Seq<u8> {
        self.bytes@
    }
}

impl<'a> AttributeReader<'a> {
    pub fn new(bytes: &'a [u8]) -> (r: Self)
        ensures
            r@ == bytes@,
    {
        Self { bytes }
    }
}

impl<'a> GenericAttribute<'a> for AttributeReader<'a> {
    open spec fn attribute_bytes(&self) -> Seq<u8> {
        self@
    }

    fn get_bytes_raw(&'a self) -> (r: &'a [u8]) {
        self.bytes
    }
}

} // verus!
