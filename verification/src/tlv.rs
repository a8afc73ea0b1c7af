//! The TLV codec of the TTK protocol: BER-style variable-width tag and
//! length encodings over raw byte buffers.
//!
//! The encoder writes the minimal byte width covering a tag (one byte up to
//! 0xFF, two big-endian bytes up to 0xFFFF, else four) and does not itself
//! enforce the BER continuation bits that the decoder requires; the
//! round-trip laws below therefore hold exactly for the tags whose minimal
//! encoding the decoder reads back, and `spec_tag_roundtrips` characterizes
//! those.

use vstd::prelude::*;

use crate::strutil::dec_string_padded;
use crate::strutil::hex_digit_str;
use crate::tags::get_tag_definition;
use crate::tags::spec_tag_definition;
use crate::textenc::cp1251_decode;
use crate::textenc::cp1251_str_of;
use crate::textenc::cp866_decode;
use crate::textenc::cp866_str_of;
use crate::textenc::utf8_lossy_decode;
use crate::textenc::utf8_lossy_str_of;
use crate::types::DataType;
use crate::types::Encoding;
use crate::types::TagDefView;
use crate::types::TagDefinition;

verus! {

/// One decoded Tag/Length/Value item, annotated with its dictionary entry
/// when the tag is known.
#[derive(Debug)]
pub struct TlvItem {
    pub tag: u32,
    pub length: usize,
    pub value: Vec<u8>,
    pub definition: Option<TagDefinition>,
}

/// Mathematical image of `TlvItem`.
pub struct TlvItemView {
    pub tag: u32,
    pub length: nat,
    pub value: Seq<u8>,
    pub definition: Option<TagDefView>,
}

impl View for TlvItem {
    type V = TlvItemView;

    open spec fn view(&self) -> TlvItemView {
        TlvItemView {
            tag: self.tag,
            length: self.length as nat,
            value: self.value@,
            definition: match self.definition {
                Some(ref d) => Some(d@),
                None => None,
            },
        }
    }
}

impl DeepView for TlvItem {
    type V = TlvItemView;

    open spec fn deep_view(&self) -> TlvItemView {
        self@
    }
}

impl TlvItemView {
    /// A well-formed item: the length field counts the value bytes and the
    /// annotation agrees with the dictionary.
    pub open spec fn wf(self) -> bool {
        &&& self.length == self.value.len()
        &&& self.definition == spec_tag_definition(self.tag)
    }
}

/// The item an in-range decode yields for `tag` and `value`.
pub open spec fn spec_item_of(tag: u32, value: Seq<u8>) -> TlvItemView {
    TlvItemView { tag, length: value.len(), value, definition: spec_tag_definition(tag) }
}

/// Minimal-width big-endian encoding of a tag.
pub open spec fn spec_encode_tag(tag: u32) -> Seq<u8> {
    if tag <= 0xff {
        seq![tag as u8]
    } else if tag <= 0xffff {
        seq![((tag >> 8) & 0xff) as u8, (tag & 0xff) as u8]
    } else {
        seq![
            ((tag >> 24) & 0xff) as u8,
            ((tag >> 16) & 0xff) as u8,
            ((tag >> 8) & 0xff) as u8,
            (tag & 0xff) as u8,
        ]
    }
}

/// Length encoding: one byte short form up to 0x7F, else 0x80 | N followed
/// by N big-endian length bytes. Lengths above 0xFFFFFF lose their high
/// bits, exactly as the wire writer does.
pub open spec fn spec_encode_length(length: usize) -> Seq<u8> {
    if length <= 0x7f {
        seq![length as u8]
    } else if length <= 0xff {
        seq![0x81u8, length as u8]
    } else if length <= 0xffff {
        seq![0x82u8, ((length >> 8) & 0xff) as u8, (length & 0xff) as u8]
    } else {
        seq![
            0x83u8,
            ((length >> 16) & 0xff) as u8,
            ((length >> 8) & 0xff) as u8,
            (length & 0xff) as u8,
        ]
    }
}

/// Encoding of one item: tag bytes, then length bytes, then the value.
pub open spec fn spec_encode_item(tag: u32, value: Seq<u8>) -> Seq<u8> {
    spec_encode_tag(tag) + spec_encode_length(value.len() as usize) + value
}

/// Tag decoding at `offset`: a first byte whose low five bits are all set
/// pulls in a second byte, and a set high bit there pulls in a third.
/// Returns the tag and the bytes consumed, or `None` past the buffer end.
pub open spec fn spec_decode_tag(data: Seq<u8>, offset: int) -> Option<(u32, int)> {
    if offset < 0 || offset >= data.len() {
        None
    } else {
        let t0 = data[offset] as u32;
        if t0 & 0x1f == 0x1f {
            if offset + 1 >= data.len() {
                None
            } else {
                let t1 = (t0 << 8) | (data[offset + 1] as u32);
                if data[offset + 1] & 0x80 == 0x80 {
                    if offset + 2 >= data.len() {
                        None
                    } else {
                        Some(((t1 << 8) | (data[offset + 2] as u32), 3))
                    }
                } else {
                    Some((t1, 2))
                }
            }
        } else {
            Some((t0, 1))
        }
    }
}

/// Big-endian accumulation of length bytes, with the wire reader's
/// truncating shift.
pub open spec fn spec_be_fold(s: Seq<u8>, acc: usize) -> usize
    decreases s.len(),
{
    if s.len() == 0 {
        acc
    } else {
        spec_be_fold(s.drop_first(), (acc << 8) | (s[0] as usize))
    }
}

/// Length decoding at `offset`: a clear high bit means the byte is the
/// length; else the low seven bits count the big-endian length bytes that
/// follow. Returns the length and the bytes consumed.
pub open spec fn spec_decode_length(data: Seq<u8>, offset: int) -> Option<(usize, int)> {
    if offset < 0 || offset >= data.len() {
        None
    } else {
        let first = data[offset];
        if first & 0x80 == 0 {
            Some((first as usize, 1))
        } else {
            let n = (first & 0x7f) as int;
            if offset + n >= data.len() {
                None
            } else {
                Some((spec_be_fold(data.subrange(offset + 1, offset + 1 + n), 0), 1 + n))
            }
        }
    }
}

/// Stream decoding from `offset` to the buffer end: items in order, or
/// `None` when any sub-read runs past the end.
pub open spec fn spec_decode_from(data: Seq<u8>, offset: int) -> Option<Seq<TlvItemView>>
    decreases data.len() - offset,
{
    if offset >= data.len() {
        Some(Seq::empty())
    } else {
        match spec_decode_tag(data, offset) {
            None => None,
            Some((tag, tw)) => match spec_decode_length(data, offset + tw) {
                None => None,
                Some((length, lw)) => {
                    let vstart = offset + tw + lw;
                    if length > data.len() - vstart {
                        None
                    } else {
                        match spec_decode_from(data, vstart + length) {
                            None => None,
                            Some(rest) => Some(
                                seq![spec_item_of(tag, data.subrange(vstart, vstart + length))]
                                    + rest,
                            ),
                        }
                    }
                },
            },
        }
    }
}

/// The whole buffer decoded as a TLV stream.
pub open spec fn spec_decode(data: Seq<u8>) -> Option<Seq<TlvItemView>> {
    spec_decode_from(data, 0)
}

/// The TLV encoder/decoder.
pub struct TlvEncoder;

impl TlvEncoder {
    /// Encodes a tag in its minimal big-endian width.
    pub fn encode_tag(tag: u32) -> (r: Vec<u8>)
        ensures
            r@ == spec_encode_tag(tag),
    {
        let mut r: Vec<u8> = Vec::new();
        if tag <= 0xff {
            r.push(tag as u8);
        } else if tag <= 0xffff {
            r.push(((tag >> 8) & 0xff) as u8);
            r.push((tag & 0xff) as u8);
        } else {
            r.push(((tag >> 24) & 0xff) as u8);
            r.push(((tag >> 16) & 0xff) as u8);
            r.push(((tag >> 8) & 0xff) as u8);
            r.push((tag & 0xff) as u8);
        }
        proof {
            assert(r@ =~= spec_encode_tag(tag));
        }
        r
    }

    /// Encodes a length in short or long form.
    pub fn encode_length(length: usize) -> (r: Vec<u8>)
        ensures
            r@ == spec_encode_length(length),
    {
        let mut r: Vec<u8> = Vec::new();
        if length <= 0x7f {
            r.push(length as u8);
        } else if length <= 0xff {
            r.push(0x81);
            r.push(length as u8);
        } else if length <= 0xffff {
            r.push(0x82);
            r.push(((length >> 8) & 0xff) as u8);
            r.push((length & 0xff) as u8);
        } else {
            r.push(0x83);
            r.push(((length >> 16) & 0xff) as u8);
            r.push(((length >> 8) & 0xff) as u8);
            r.push((length & 0xff) as u8);
        }
        proof {
            assert(r@ =~= spec_encode_length(length));
        }
        r
    }

    /// Encodes one item: tag, length of the value, then the value bytes.
    pub fn encode(tag: u32, value: &[u8]) -> (r: Vec<u8>)
        ensures
            r@ == spec_encode_item(tag, value@),
    {
        let mut r: Vec<u8> = Self::encode_tag(tag);
        let mut length_bytes: Vec<u8> = Self::encode_length(value.len());
        r.append(&mut length_bytes);
        let mut i: usize = 0;
        while i < value.len()
            invariant
                i <= value@.len(),
                r@ =~= spec_encode_tag(tag) + spec_encode_length(value@.len() as usize)
                    + value@.take(i as int),
            decreases value@.len() - i,
        {
            r.push(value[i]);
            i = i + 1;
        }
        proof {
            assert(r@ =~= spec_encode_item(tag, value@));
        }
        r
    }

    /// Decodes the whole buffer as a TLV stream, annotating each item with
    /// its dictionary entry. Fails exactly when a tag, length or value read
    /// runs past the buffer end.
    pub fn decode(data: &[u8]) -> (r: Result<Vec<TlvItem>, String>)
        ensures
            match r {
                Ok(items) => spec_decode(data@) == Some(items.deep_view()),
                Err(_) => spec_decode(data@) is None,
            },
    {
        let mut items: Vec<TlvItem> = Vec::new();
        let ghost mut done: Seq<TlvItemView> = Seq::empty();
        let mut offset: usize = 0;
        let dlen: usize = data.len();
        while offset < dlen
            invariant
                dlen == data@.len(),
                offset <= dlen,
                done == items.deep_view(),
                match spec_decode_from(data@, offset as int) {
                    Some(rest) => spec_decode(data@) == Some(done + rest),
                    None => spec_decode(data@) is None,
                },
            decreases dlen - offset,
        {
            let (tag, tag_length) = match Self::decode_tag(data, offset) {
                Ok(v) => v,
                Err(e) => {
                    return Err(e);
                },
            };
            proof {
                assert(offset + tag_length <= dlen);
            }
            let (length, length_length) = match Self::decode_length(data, offset + tag_length) {
                Ok(v) => v,
                Err(e) => {
                    return Err(e);
                },
            };
            let vstart: usize = offset + tag_length + length_length;
            proof {
                assert(vstart <= dlen);
            }
            if length > dlen - vstart {
                return Err("Invalid TLV data: length exceeds buffer".to_owned());
            }
            let mut value: Vec<u8> = Vec::new();
            let mut j: usize = 0;
            while j < length
                invariant
                    j <= length,
                    dlen == data@.len(),
                    vstart + length <= dlen,
                    value@ =~= data@.subrange(vstart as int, vstart + j),
                decreases length - j,
            {
                value.push(data[vstart + j]);
                j = j + 1;
            }
            proof {
                assert(value@ =~= data@.subrange(vstart as int, vstart + length));
            }
            let definition: Option<TagDefinition> = get_tag_definition(tag);
            let item = TlvItem { tag, length, value, definition };
            let ghost prev = items@;
            proof {
                assert(item@ == spec_item_of(tag, data@.subrange(vstart as int, vstart + length)));
            }
            items.push(item);
            proof {
                assert forall|k: int| 0 <= k < items@.len() implies #[trigger] items.deep_view()[k]
                    == done.push(spec_item_of(tag, data@.subrange(vstart as int, vstart + length)))[k] by {
                    if k < items@.len() - 1 {
                        assert(items@[k] == prev[k]);
                    }
                }
                let item_v = spec_item_of(tag, data@.subrange(vstart as int, vstart + length));
                assert(items.deep_view() =~= done.push(item_v));
                match spec_decode_from(data@, vstart + length) {
                    Some(tail) => {
                        assert(spec_decode_from(data@, offset as int) == Some(
                            seq![item_v] + tail,
                        ));
                        assert(done + (seq![item_v] + tail) =~= done.push(item_v) + tail);
                    },
                    None => {
                        assert(spec_decode_from(data@, offset as int) is None);
                    },
                }
                done = done.push(item_v);
            }
            offset = vstart + length;
        }
        proof {
            assert(spec_decode_from(data@, offset as int) == Some(Seq::<TlvItemView>::empty()));
            assert(done + Seq::<TlvItemView>::empty() =~= done);
        }
        Ok(items)
    }

    /// Renders bytes as uppercase hexadecimal, two digits per byte.
    pub fn bytes_to_hex(bytes: &[u8]) -> (r: String)
        ensures
            r@ == spec_hex_bytes(bytes@),
    {
        let mut r: String = String::new();
        let mut i: usize = 0;
        while i < bytes.len()
            invariant
                i <= bytes@.len(),
                r@ =~= spec_hex_bytes(bytes@.take(i as int)),
            decreases bytes@.len() - i,
        {
            let b: u8 = bytes[i];
            proof {
                lemma_nibbles(b);
            }
            r.append(hex_digit_str(b >> 4));
            r.append(hex_digit_str(b & 0x0f));
            i = i + 1;
            proof {
                assert(r@ =~= spec_hex_bytes(bytes@.take(i as int)));
            }
        }
        proof {
            assert(bytes@.take(bytes@.len() as int) =~= bytes@);
        }
        r
    }

    /// Renders an item's value as text, as its dictionary entry's data type
    /// directs: strings by their declared character set, BCD bytes as
    /// two-digit decimals, DWORDs and binary as hexadecimal; an unknown
    /// tag's value as raw hex.
    pub fn value_to_string(item: &TlvItem) -> (r: String)
        requires
            item.value@.len() < usize::MAX / 4,
        ensures
            r@ == spec_value_string(item@),
    {
        let def = match &item.definition {
            None => {
                return Self::bytes_to_hex(item.value.as_slice());
            },
            Some(d) => d,
        };
        match def.data_type {
            DataType::String => {
                match def.encoding {
                    Some(Encoding::Cp1251) => cp1251_decode(item.value.as_slice()),
                    Some(Encoding::Cp866) => cp866_decode(item.value.as_slice()),
                    _ => utf8_lossy_decode(item.value.as_slice()),
                }
            },
            DataType::Bcd => {
                let mut r: String = String::new();
                let mut i: usize = 0;
                while i < item.value.len()
                    invariant
                        i <= item.value@.len(),
                        r@ =~= spec_bcd_string(item.value@.take(i as int)),
                    decreases item.value@.len() - i,
                {
                    let b: u8 = item.value[i];
                    let two: String = dec_string_padded(b as u64, 2);
                    r.append(two.as_str());
                    proof {
                        lemma_bcd_snoc(item.value@, i as int);
                        assert(crate::strutil::spec_dec(b as nat).len() >= 1);
                    }
                    i = i + 1;
                }
                proof {
                    assert(item.value@.take(item.value@.len() as int) =~= item.value@);
                }
                r
            },
            DataType::Hex => Self::bytes_to_hex(item.value.as_slice()),
            DataType::Binary => Self::bytes_to_hex(item.value.as_slice()),
            DataType::DwordLe => {
                let k: usize = if item.value.len() < 4 {
                    item.value.len()
                } else {
                    4
                };
                let mut rev: Vec<u8> = Vec::new();
                let mut j: usize = 0;
                while j < k
                    invariant
                        j <= k,
                        k <= item.value@.len(),
                        k == spec_dword_take(item.value@),
                        rev@ =~= Seq::new(j as nat, |i: int| item.value@[k - 1 - i]),
                    decreases k - j,
                {
                    rev.push(item.value[k - 1 - j]);
                    j = j + 1;
                    proof {
                        assert(rev@ =~= Seq::new(j as nat, |i: int| item.value@[k - 1 - i]));
                    }
                }
                let hex: String = Self::bytes_to_hex(rev.as_slice());
                let r: String = "0x".to_owned().concat(hex.as_str());
                proof {
                    assert(r@ =~= spec_value_string(item@));
                }
                r
            },
            DataType::DwordBe => {
                let k: usize = if item.value.len() < 4 {
                    item.value.len()
                } else {
                    4
                };
                let mut head: Vec<u8> = Vec::new();
                let mut j: usize = 0;
                while j < k
                    invariant
                        j <= k,
                        k <= item.value@.len(),
                        k == spec_dword_take(item.value@),
                        head@ =~= item.value@.take(j as int),
                    decreases k - j,
                {
                    head.push(item.value[j]);
                    j = j + 1;
                }
                let hex: String = Self::bytes_to_hex(head.as_slice());
                let r: String = "0x".to_owned().concat(hex.as_str());
                proof {
                    assert(head@ =~= item.value@.take(k as int));
                    assert(r@ =~= spec_value_string(item@));
                }
                r
            },
        }
    }

    /// Reads a tag at `offset`, returning the tag and the bytes consumed.
    pub fn decode_tag(data: &[u8], offset: usize) -> (r: Result<(u32, usize), String>)
        ensures
            match r {
                Ok((tag, w)) => spec_decode_tag(data@, offset as int) == Some((tag, w as int)),
                Err(_) => spec_decode_tag(data@, offset as int) is None,
            },
    {
        if offset >= data.len() {
            return Err("Invalid TLV data: offset out of bounds".to_owned());
        }
        let mut tag: u32 = data[offset] as u32;
        let mut tag_length: usize = 1;
        if tag & 0x1f == 0x1f {
            if offset + 1 >= data.len() {
                return Err("Invalid TLV data: incomplete tag".to_owned());
            }
            tag_length = 2;
            tag = (tag << 8) | (data[offset + 1] as u32);
            if data[offset + 1] & 0x80 == 0x80 {
                if offset + 2 >= data.len() {
                    return Err("Invalid TLV data: incomplete tag".to_owned());
                }
                tag_length = 3;
                tag = (tag << 8) | (data[offset + 2] as u32);
            }
        }
        Ok((tag, tag_length))
    }

    /// Reads a length at `offset`, returning the length and the bytes
    /// consumed.
    pub fn decode_length(data: &[u8], offset: usize) -> (r: Result<(usize, usize), String>)
        ensures
            match r {
                Ok((length, w)) => spec_decode_length(data@, offset as int) == Some((
                    length,
                    w as int,
                )),
                Err(_) => spec_decode_length(data@, offset as int) is None,
            },
    {
        if offset >= data.len() {
            return Err("Invalid TLV data: offset out of bounds".to_owned());
        }
        let first_byte: u8 = data[offset];
        if first_byte & 0x80 == 0 {
            Ok((first_byte as usize, 1))
        } else {
            let num_bytes: usize = (first_byte & 0x7f) as usize;
            let dlen: usize = data.len();
            if num_bytes >= dlen - offset {
                return Err("Invalid TLV data: incomplete length".to_owned());
            }
            let ghost lenbytes = data@.subrange(offset + 1, offset + 1 + num_bytes);
            let mut length: usize = 0;
            let mut i: usize = 0;
            while i < num_bytes
                invariant
                    i <= num_bytes,
                    dlen == data@.len(),
                    offset + num_bytes < dlen,
                    lenbytes == data@.subrange(offset + 1, offset + 1 + num_bytes),
                    length == spec_be_fold(lenbytes.take(i as int), 0),
                decreases num_bytes - i,
            {
                let b: u8 = data[offset + 1 + i];
                proof {
                    lemma_be_fold_push(lenbytes.take(i as int), b, 0);
                    assert(lenbytes.take(i as int).push(b) =~= lenbytes.take(i as int + 1));
                }
                length = (length << 8) | (b as usize);
                i = i + 1;
            }
            proof {
                assert(lenbytes.take(num_bytes as int) =~= lenbytes);
            }
            Ok((length, 1 + num_bytes))
        }
    }
}

/// Uppercase hexadecimal, two digits per byte, no separator.
pub open spec fn spec_hex_bytes(b: Seq<u8>) -> Seq<char> {
    Seq::new(
        2 * b.len(),
        |i: int|
            if i % 2 == 0 {
                crate::strutil::spec_hex_digit((b[i / 2] >> 4) as int)
            } else {
                crate::strutil::spec_hex_digit((b[i / 2] & 0x0f) as int)
            },
    )
}

/// The wire's byte-per-pair decimal rendering: each byte as a two-digit
/// decimal, wider when a byte exceeds 99.
pub open spec fn spec_bcd_string(b: Seq<u8>) -> Seq<char>
    decreases b.len(),
{
    if b.len() == 0 {
        Seq::empty()
    } else {
        crate::strutil::spec_dec_padded(b[0] as nat, 2) + spec_bcd_string(b.drop_first())
    }
}

/// How many of the value's leading bytes a DWORD rendering covers.
pub open spec fn spec_dword_take(b: Seq<u8>) -> int {
    if b.len() < 4 {
        b.len() as int
    } else {
        4
    }
}

/// The text rendering of an item's value, as its dictionary entry's data
/// type directs; an unknown tag's value renders as raw hex.
pub open spec fn spec_value_string(item: TlvItemView) -> Seq<char> {
    match item.definition {
        None => spec_hex_bytes(item.value),
        Some(d) => match d.data_type {
            DataType::String => match d.encoding {
                Some(Encoding::Cp1251) => cp1251_str_of(item.value),
                Some(Encoding::Cp866) => cp866_str_of(item.value),
                _ => utf8_lossy_str_of(item.value),
            },
            DataType::Bcd => spec_bcd_string(item.value),
            DataType::Hex => spec_hex_bytes(item.value),
            DataType::Binary => spec_hex_bytes(item.value),
            DataType::DwordLe => "0x"@ + spec_hex_bytes(
                Seq::new(
                    spec_dword_take(item.value) as nat,
                    |i: int| item.value[spec_dword_take(item.value) - 1 - i],
                ),
            ),
            DataType::DwordBe => "0x"@ + spec_hex_bytes(
                item.value.take(spec_dword_take(item.value)),
            ),
        },
    }
}

/// Both nibbles of a byte are hexadecimal digits.
proof fn lemma_nibbles(b: u8)
    ensures
        b >> 4 < 16,
        b & 0x0f < 16,
{
    assert(b >> 4 < 16 && b & 0x0f < 16) by (bit_vector);
}

proof fn lemma_bcd_snoc(b: Seq<u8>, i: int)
    requires
        0 <= i < b.len(),
    ensures
        spec_bcd_string(b.take(i + 1)) == spec_bcd_string(b.take(i))
            + crate::strutil::spec_dec_padded(b[i] as nat, 2),
    decreases i,
{
    if i == 0 {
        assert(b.take(1).drop_first() =~= Seq::<u8>::empty());
        assert(spec_bcd_string(Seq::<u8>::empty()) =~= Seq::<char>::empty());
        assert(b.take(0) =~= Seq::<u8>::empty());
        assert(spec_bcd_string(b.take(1)) =~= crate::strutil::spec_dec_padded(b[0] as nat, 2));
    } else {
        let d = b.drop_first();
        lemma_bcd_snoc(d, i - 1);
        assert(b.take(i + 1).drop_first() =~= d.take(i));
        assert(b.take(i).drop_first() =~= d.take(i - 1));
        assert(b.take(i + 1)[0] == b[0]);
        assert(b.take(i)[0] == b[0]);
        assert(d[i - 1] == b[i]);
        assert(crate::strutil::spec_dec_padded(b[0] as nat, 2) + (spec_bcd_string(d.take(i - 1))
            + crate::strutil::spec_dec_padded(b[i] as nat, 2)) =~= (crate::strutil::spec_dec_padded(
            b[0] as nat,
            2,
        ) + spec_bcd_string(d.take(i - 1))) + crate::strutil::spec_dec_padded(b[i] as nat, 2));
    }
}

/// The tags whose minimal encoding the decoder reads back unchanged: a
/// one-byte tag must not carry the all-ones low five bits that announce a
/// continuation, and a two-byte tag must carry them in its first byte and a
/// clear high bit in its second. (The encoder never emits a three-byte
/// form, and its four-byte form is not decodable, so wider tags do not
/// round-trip.)
pub open spec fn spec_tag_roundtrips(tag: u32) -> bool {
    ||| (tag <= 0xff && tag & 0x1f != 0x1f)
    ||| (0xff < tag && tag <= 0xffff && (tag >> 8) & 0x1f == 0x1f && tag & 0x80 == 0)
}

/// Decoding at an offset where a round-trippable tag's encoding lies
/// recovers the tag and its width.
pub proof fn lemma_decode_tag_of_encoding(data: Seq<u8>, offset: int, tag: u32)
    requires
        spec_tag_roundtrips(tag),
        0 <= offset,
        offset + spec_encode_tag(tag).len() <= data.len(),
        data.subrange(offset, offset + spec_encode_tag(tag).len() as int) == spec_encode_tag(tag),
    ensures
        spec_decode_tag(data, offset) == Some((tag, spec_encode_tag(tag).len() as int)),
{
    if tag <= 0xff {
        assert(data[offset] == spec_encode_tag(tag)[0]);
        assert(((tag as u8) as u32) == tag && ((tag as u8) as u32) & 0x1f != 0x1f)
            by (bit_vector)
            requires
                tag <= 0xff,
                tag & 0x1f != 0x1f,
        ;
    } else {
        assert(data[offset] == spec_encode_tag(tag)[0]);
        assert(data[offset + 1] == spec_encode_tag(tag)[1]);
        let b0 = ((tag >> 8) & 0xff) as u8;
        let b1 = (tag & 0xff) as u8;
        assert((b0 as u32) & 0x1f == 0x1f && b1 & 0x80 != 0x80 && (((b0 as u32) << 8) | (
        b1 as u32)) == tag)
            by (bit_vector)
            requires
                0xff < tag,
                tag <= 0xffff,
                (tag >> 8) & 0x1f == 0x1f,
                tag & 0x80 == 0,
                b0 == ((tag >> 8) & 0xff) as u8,
                b1 == (tag & 0xff) as u8,
        ;
    }
}

/// Decoding at an offset where a length's encoding lies recovers the
/// length and its width, for any length the three long-form widths cover.
pub proof fn lemma_decode_length_of_encoding(data: Seq<u8>, offset: int, length: usize)
    requires
        length <= 0xffffff,
        0 <= offset,
        offset + spec_encode_length(length).len() <= data.len(),
        data.subrange(offset, offset + spec_encode_length(length).len() as int)
            == spec_encode_length(length),
    ensures
        spec_decode_length(data, offset) == Some((length, spec_encode_length(length).len() as int)),
{
    reveal_with_fuel(spec_be_fold, 2);
    let enc = spec_encode_length(length);
    if length <= 0x7f {
        assert(data[offset] == enc[0]);
        assert((length as u8) & 0x80 == 0 && (length as u8) as usize == length)
            by (bit_vector)
            requires
                length <= 0x7f,
        ;
    } else if length <= 0xff {
        assert(data[offset] == enc[0]);
        assert(data[offset + 1] == enc[1]);
        assert(0x81u8 & 0x80 != 0) by (bit_vector);
        assert((0x81u8 & 0x7f) as int == 1) by (bit_vector);
        let lb = data.subrange(offset + 1, offset + 2);
        assert(lb =~= seq![(length as u8)]);
        lemma_be_fold_push(Seq::<u8>::empty(), length as u8, 0);
        assert(Seq::<u8>::empty().push(length as u8) =~= seq![(length as u8)]);
        assert((0usize << 8) | ((length as u8) as usize) == length)
            by (bit_vector)
            requires
                0x7f < length,
                length <= 0xff,
        ;
    } else if length <= 0xffff {
        assert(data[offset] == enc[0]);
        assert(data[offset + 1] == enc[1]);
        assert(data[offset + 2] == enc[2]);
        assert(0x82u8 & 0x80 != 0) by (bit_vector);
        assert((0x82u8 & 0x7f) as int == 2) by (bit_vector);
        let b1 = ((length >> 8) & 0xff) as u8;
        let b2 = (length & 0xff) as u8;
        let lb = data.subrange(offset + 1, offset + 3);
        assert(lb =~= seq![b1, b2]);
        lemma_be_fold_push(Seq::<u8>::empty(), b1, 0);
        assert(Seq::<u8>::empty().push(b1) =~= seq![b1]);
        lemma_be_fold_push(seq![b1], b2, 0);
        assert(seq![b1].push(b2) =~= seq![b1, b2]);
        assert(((((0usize << 8) | (b1 as usize)) << 8) | (b2 as usize)) == length)
            by (bit_vector)
            requires
                0xff < length,
                length <= 0xffff,
                b1 == ((length >> 8) & 0xff) as u8,
                b2 == (length & 0xff) as u8,
        ;
    } else {
        assert(data[offset] == enc[0]);
        assert(data[offset + 1] == enc[1]);
        assert(data[offset + 2] == enc[2]);
        assert(data[offset + 3] == enc[3]);
        assert(0x83u8 & 0x80 != 0) by (bit_vector);
        assert((0x83u8 & 0x7f) as int == 3) by (bit_vector);
        let b1 = ((length >> 16) & 0xff) as u8;
        let b2 = ((length >> 8) & 0xff) as u8;
        let b3 = (length & 0xff) as u8;
        let lb = data.subrange(offset + 1, offset + 4);
        assert(lb =~= seq![b1, b2, b3]);
        lemma_be_fold_push(Seq::<u8>::empty(), b1, 0);
        assert(Seq::<u8>::empty().push(b1) =~= seq![b1]);
        lemma_be_fold_push(seq![b1], b2, 0);
        assert(seq![b1].push(b2) =~= seq![b1, b2]);
        lemma_be_fold_push(seq![b1, b2], b3, 0);
        assert(seq![b1, b2].push(b3) =~= seq![b1, b2, b3]);
        assert((((((0usize << 8) | (b1 as usize)) << 8) | (b2 as usize)) << 8) | (b3 as usize)
            == length)
            by (bit_vector)
            requires
                0xffff < length,
                length <= 0xffffff,
                b1 == ((length >> 16) & 0xff) as u8,
                b2 == ((length >> 8) & 0xff) as u8,
                b3 == (length & 0xff) as u8,
        ;
    }
}

/// At an offset where a whole item encoding lies, tag and length decode
/// back and the value bytes follow.
pub proof fn lemma_decode_item_at(data: Seq<u8>, offset: int, tag: u32, value: Seq<u8>)
    requires
        spec_tag_roundtrips(tag),
        value.len() <= 0xffffff,
        0 <= offset,
        offset + spec_encode_item(tag, value).len() <= data.len(),
        data.subrange(offset, offset + spec_encode_item(tag, value).len() as int)
            == spec_encode_item(tag, value),
    ensures
        spec_decode_tag(data, offset) == Some((tag, spec_encode_tag(tag).len() as int)),
        spec_decode_length(data, offset + spec_encode_tag(tag).len()) == Some((
            value.len() as usize,
            spec_encode_length(value.len() as usize).len() as int,
        )),
        data.subrange(
            offset + spec_encode_tag(tag).len() + spec_encode_length(value.len() as usize).len(),
            offset + spec_encode_item(tag, value).len(),
        ) == value,
{
    let tenc = spec_encode_tag(tag);
    let lenc = spec_encode_length(value.len() as usize);
    let ienc = spec_encode_item(tag, value);
    assert forall|k: int| 0 <= k < ienc.len() implies data[offset + k] == ienc[k] by {
        assert(data.subrange(offset, offset + ienc.len() as int)[k] == ienc[k]);
    }
    assert forall|k: int| 0 <= k < tenc.len() implies #[trigger] data.subrange(
        offset,
        offset + tenc.len() as int,
    )[k] == tenc[k] by {
        assert(data[offset + k] == ienc[k]);
    }
    assert(data.subrange(offset, offset + tenc.len() as int) =~= tenc);
    lemma_decode_tag_of_encoding(data, offset, tag);
    assert forall|k: int| 0 <= k < lenc.len() implies #[trigger] data.subrange(
        offset + tenc.len(),
        offset + tenc.len() + lenc.len(),
    )[k] == lenc[k] by {
        assert(data[offset + (tenc.len() + k)] == ienc[tenc.len() + k]);
        assert(ienc[tenc.len() + k] == lenc[k]);
    }
    assert(data.subrange(offset + tenc.len(), offset + tenc.len() + lenc.len()) =~= lenc);
    lemma_decode_length_of_encoding(data, offset + tenc.len(), value.len() as usize);
    assert forall|k: int| 0 <= k < value.len() implies #[trigger] data.subrange(
        offset + tenc.len() + lenc.len(),
        offset + ienc.len(),
    )[k] == value[k] by {
        assert(data[offset + (tenc.len() + lenc.len() + k)] == ienc[tenc.len() + lenc.len() + k]);
        assert(ienc[tenc.len() + lenc.len() + k] == value[k]);
    }
    assert(data.subrange(offset + tenc.len() + lenc.len(), offset + ienc.len()) =~= value);
}

/// The encodings of a list of items, concatenated in order.
pub open spec fn spec_encode_items(items: Seq<TlvItemView>) -> Seq<u8>
    decreases items.len(),
{
    if items.len() == 0 {
        Seq::empty()
    } else {
        spec_encode_item(items[0].tag, items[0].value) + spec_encode_items(items.drop_first())
    }
}

/// Extending the encoded prefix of an item list by one item appends that
/// item's encoding.
pub proof fn lemma_encode_items_snoc(s: Seq<TlvItemView>, i: int)
    requires
        0 <= i < s.len(),
    ensures
        spec_encode_items(s.take(i + 1)) == spec_encode_items(s.take(i)) + spec_encode_item(
            s[i].tag,
            s[i].value,
        ),
    decreases i,
{
    if i == 0 {
        assert(s.take(1).drop_first() =~= Seq::<TlvItemView>::empty());
        assert(s.take(0) =~= Seq::<TlvItemView>::empty());
        assert(spec_encode_items(Seq::<TlvItemView>::empty()) == Seq::<u8>::empty());
        assert(s.take(1)[0] == s[0]);
        assert(spec_encode_items(s.take(1)) =~= spec_encode_item(s[0].tag, s[0].value));
        assert(spec_encode_items(s.take(0)) + spec_encode_item(s[0].tag, s[0].value)
            =~= spec_encode_item(s[0].tag, s[0].value));
    } else {
        let d = s.drop_first();
        lemma_encode_items_snoc(d, i - 1);
        assert(s.take(i + 1).drop_first() =~= d.take(i));
        assert(s.take(i).drop_first() =~= d.take(i - 1));
        assert(s.take(i + 1)[0] == s[0]);
        assert(s.take(i)[0] == s[0]);
        assert(d[i - 1] == s[i]);
        let e0 = spec_encode_item(s[0].tag, s[0].value);
        let ei = spec_encode_item(s[i].tag, s[i].value);
        assert(spec_encode_items(s.take(i + 1)) == e0 + spec_encode_items(d.take(i)));
        assert(spec_encode_items(s.take(i)) == e0 + spec_encode_items(d.take(i - 1)));
        assert(e0 + (spec_encode_items(d.take(i - 1)) + ei) =~= (e0 + spec_encode_items(
            d.take(i - 1),
        )) + ei);
    }
}

/// An item list every member of which is well formed, carries a
/// round-trippable tag, and fits the length forms.
pub open spec fn spec_items_roundtrip(items: Seq<TlvItemView>) -> bool {
    forall|k: int|
        0 <= k < items.len() ==> (#[trigger] items[k]).wf() && spec_tag_roundtrips(items[k].tag)
            && items[k].value.len() <= 0xffffff
}

/// Decoding a buffer whose tail from `offset` holds the concatenated
/// encodings of a round-trippable item list yields exactly that list.
pub proof fn lemma_decode_stream(data: Seq<u8>, offset: int, items: Seq<TlvItemView>)
    requires
        spec_items_roundtrip(items),
        0 <= offset <= data.len(),
        data.subrange(offset, data.len() as int) == spec_encode_items(items),
    ensures
        spec_decode_from(data, offset) == Some(items),
    decreases items.len(),
{
    if items.len() == 0 {
        assert(spec_encode_items(items) == Seq::<u8>::empty());
        assert(data.subrange(offset, data.len() as int).len() == 0);
        assert(offset == data.len());
        assert(Seq::<TlvItemView>::empty() =~= items);
    } else {
        let tag = items[0].tag;
        let value = items[0].value;
        let ienc = spec_encode_item(tag, value);
        let rest_enc = spec_encode_items(items.drop_first());
        assert(data.subrange(offset, data.len() as int) == ienc + rest_enc);
        assert(offset + ienc.len() <= data.len());
        assert forall|k: int| 0 <= k < ienc.len() + rest_enc.len() implies data[offset + k] == (ienc
            + rest_enc)[k] by {
            assert(data.subrange(offset, data.len() as int)[k] == (ienc + rest_enc)[k]);
        }
        assert forall|k: int| 0 <= k < ienc.len() implies #[trigger] data.subrange(
            offset,
            offset + ienc.len() as int,
        )[k] == ienc[k] by {
            assert(data[offset + k] == (ienc + rest_enc)[k]);
        }
        assert(data.subrange(offset, offset + ienc.len() as int) =~= ienc);
        lemma_decode_item_at(data, offset, tag, value);
        assert forall|k: int| 0 <= k < rest_enc.len() implies #[trigger] data.subrange(
            offset + ienc.len(),
            data.len() as int,
        )[k] == rest_enc[k] by {
            assert(data[offset + (ienc.len() + k)] == (ienc + rest_enc)[ienc.len() + k]);
        }
        assert(data.subrange(offset + ienc.len(), data.len() as int) =~= rest_enc);
        lemma_decode_stream(data, offset + ienc.len(), items.drop_first());
        let tenc = spec_encode_tag(tag);
        let lenc = spec_encode_length(value.len() as usize);
        let vstart = offset + tenc.len() + lenc.len();
        assert(spec_item_of(tag, data.subrange(vstart, vstart + value.len())) == items[0]);
        assert(spec_decode_from(data, offset) == Some(seq![items[0]] + items.drop_first()));
        assert(seq![items[0]] + items.drop_first() =~= items);
    }
}

/// Round trip of one item (the universal TLV law): decoding the encoding
/// of a tag and value yields that single item, annotated from the
/// dictionary, for every round-trippable tag and every value of at most
/// 0xFFFFFF bytes.
pub proof fn lemma_tlv_roundtrip(tag: u32, value: Seq<u8>)
    requires
        spec_tag_roundtrips(tag),
        value.len() <= 0xffffff,
    ensures
        spec_decode(spec_encode_item(tag, value)) == Some(seq![spec_item_of(tag, value)]),
{
    let data = spec_encode_item(tag, value);
    let items = seq![spec_item_of(tag, value)];
    assert(items.drop_first() =~= Seq::<TlvItemView>::empty());
    assert(spec_encode_items(Seq::<TlvItemView>::empty()) =~= Seq::<u8>::empty());
    assert(spec_encode_items(items) =~= data + Seq::empty());
    assert(data.subrange(0, data.len() as int) =~= data);
    assert(data =~= spec_encode_items(items));
    lemma_decode_stream(data, 0, items);
}

/// Round trip of the length encoding: decoding an encoded length recovers
/// the length and consumes exactly the encoded width, for every length up
/// to 0xFFFFFF.
pub proof fn lemma_length_roundtrip(length: usize)
    requires
        length <= 0xffffff,
    ensures
        spec_decode_length(spec_encode_length(length), 0) == Some((
            length,
            spec_encode_length(length).len() as int,
        )),
{
    let enc = spec_encode_length(length);
    assert(enc.subrange(0, enc.len() as int) =~= enc);
    lemma_decode_length_of_encoding(enc, 0, length);
}

/// Round trip of the tag encoding, for every round-trippable tag:
/// decoding an encoded tag recovers the tag and consumes exactly the
/// encoded width. Tags outside `spec_tag_roundtrips` do not decode back
/// (0xFF alone asks for a continuation byte; 0x100 reads back as 0x01).
pub proof fn lemma_tag_roundtrip(tag: u32)
    requires
        spec_tag_roundtrips(tag),
    ensures
        spec_decode_tag(spec_encode_tag(tag), 0) == Some((
            tag,
            spec_encode_tag(tag).len() as int,
        )),
{
    let enc = spec_encode_tag(tag);
    assert(enc.subrange(0, enc.len() as int) =~= enc);
    lemma_decode_tag_of_encoding(enc, 0, tag);
}

/// Appending a byte to the big-endian fold shifts the accumulated value by
/// one byte and ors the new one in.
proof fn lemma_be_fold_push(s: Seq<u8>, b: u8, acc: usize)
    ensures
        spec_be_fold(s.push(b), acc) == (spec_be_fold(s, acc) << 8) | (b as usize),
    decreases s.len(),
{
    reveal_with_fuel(spec_be_fold, 3);
    if s.len() == 0 {
        assert(s.push(b).drop_first() =~= Seq::<u8>::empty());
        assert(s.push(b)[0] == b);
    } else {
        assert(s.push(b).drop_first() =~= s.drop_first().push(b));
        assert(s.push(b)[0] == s[0]);
        lemma_be_fold_push(s.drop_first(), b, (acc << 8) | (s[0] as usize));
        assert(spec_be_fold(s.push(b), acc) == spec_be_fold(
            s.drop_first().push(b),
            (acc << 8) | (s[0] as usize),
        ));
        assert(spec_be_fold(s, acc) == spec_be_fold(s.drop_first(), (acc << 8) | (s[0] as usize)));
    }
}

} // verus!
