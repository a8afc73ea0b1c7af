//! The TTK envelope codec: a 4-byte header — big-endian message length
//! (body length plus two) and big-endian message type — followed by the
//! TLV body; and the conversion of a decoded item list into the raw
//! key/value bag the normalizer consumes.

use vstd::prelude::*;

use crate::rawmap::RawMap;
use crate::strutil::hex_u32_string;
use crate::strutil::spec_hex_nat;
use crate::tlv::TlvEncoder;
use crate::tlv::TlvItem;
use crate::tlv::TlvItemView;
use crate::tlv::lemma_decode_stream;
use crate::tlv::lemma_encode_items_snoc;
use crate::tlv::spec_decode;
use crate::tlv::spec_encode_items;
use crate::tlv::spec_items_roundtrip;
use crate::tlv::spec_value_string;
use crate::types::CLIENT_REQUEST_CODE;
use crate::types::MessageType;
use crate::types::SERVER_RESPONSE_CODE;
use crate::types::spec_wire_code;

verus! {

/// The envelope laid around a TLV body.
pub open spec fn spec_frame(mtype: MessageType, body: Seq<u8>) -> Seq<u8> {
    let message_length = (body.len() + 2) as usize;
    let wire = spec_wire_code(mtype);
    seq![
        ((message_length >> 8) & 0xff) as u8,
        (message_length & 0xff) as u8,
        ((wire >> 8) & 0xff) as u8,
        (wire & 0xff) as u8,
    ] + body
}

/// Envelope parsing: at least four bytes, a length that covers the type
/// field and body, a recognized type code, and a decodable TLV body.
pub open spec fn spec_parse(data: Seq<u8>) -> Option<(MessageType, Seq<TlvItemView>)> {
    if data.len() < 4 {
        None
    } else {
        let length = ((data[0] as u16) << 8) | (data[1] as u16);
        let wire = ((data[2] as u16) << 8) | (data[3] as u16);
        if data.len() != length + 2 {
            None
        } else {
            match spec_decode(data.skip(4)) {
                None => None,
                Some(items) => if wire == CLIENT_REQUEST_CODE {
                    Some((MessageType::ClientRequest, items))
                } else if wire == SERVER_RESPONSE_CODE {
                    Some((MessageType::ServerResponse, items))
                } else {
                    None
                },
            }
        }
    }
}

/// The raw-map key of an item: its dictionary name, or `TAG_` followed by
/// the tag in uppercase hex when the tag is unknown.
pub open spec fn spec_item_key(item: TlvItemView) -> Seq<char> {
    match item.definition {
        Some(d) => d.name,
        None => "TAG_"@ + spec_hex_nat(item.tag as nat),
    }
}

/// The raw map of an item list: each item under its key, a later item
/// overwriting an earlier one that shares its key.
pub open spec fn spec_items_object(items: Seq<TlvItemView>) -> Map<Seq<char>, Seq<char>>
    decreases items.len(),
{
    if items.len() == 0 {
        Map::empty()
    } else {
        spec_items_object(items.drop_last()).insert(
            spec_item_key(items.last()),
            spec_value_string(items.last()),
        )
    }
}

/// The TTK envelope reader and writer.
pub struct TtkBuffer;

impl TtkBuffer {
    /// Frames an item list: the items' encodings concatenated, preceded by
    /// the 4-byte header.
    pub fn create_message(message_type: MessageType, items: &[TlvItem]) -> (r: Vec<u8>)
        requires
            spec_encode_items(items.deep_view()).len() + 2 <= usize::MAX,
        ensures
            r@ == spec_frame(message_type, spec_encode_items(items.deep_view())),
    {
        let mut body: Vec<u8> = Vec::new();
        let mut i: usize = 0;
        while i < items.len()
            invariant
                i <= items@.len(),
                items.deep_view().len() == items@.len(),
                body@ =~= spec_encode_items(items.deep_view().take(i as int)),
                spec_encode_items(items.deep_view()).len() + 2 <= usize::MAX,
            decreases items@.len() - i,
        {
            proof {
                lemma_encode_items_snoc(items.deep_view(), i as int);
                assert(items.deep_view().take(items.deep_view().len() as int)
                    =~= items.deep_view());
                lemma_encode_prefix_len(items.deep_view(), i as int + 1);
            }
            let item: &TlvItem = &items[i];
            let mut enc: Vec<u8> = TlvEncoder::encode(item.tag, item.value.as_slice());
            proof {
                assert(items.deep_view()[i as int] == item@);
            }
            body.append(&mut enc);
            i = i + 1;
        }
        proof {
            assert(items.deep_view().take(items@.len() as int) =~= items.deep_view());
        }
        let message_length: usize = body.len() + 2;
        let wire: u16 = message_type.wire_code();
        let mut message: Vec<u8> = Vec::new();
        message.push(((message_length >> 8) & 0xff) as u8);
        message.push((message_length & 0xff) as u8);
        message.push(((wire >> 8) & 0xff) as u8);
        message.push((wire & 0xff) as u8);
        let mut b = body;
        message.append(&mut b);
        proof {
            assert(message@ =~= spec_frame(message_type, spec_encode_items(items.deep_view())));
        }
        message
    }

    /// Unframes a message: requires at least four bytes, a length equal to
    /// the byte count minus two, a recognized type code, and a decodable
    /// body; fails otherwise.
    pub fn parse_message(data: &[u8]) -> (r: Result<(MessageType, Vec<TlvItem>), String>)
        ensures
            match r {
                Ok((t, items)) => spec_parse(data@) == Some((t, items.deep_view())),
                Err(_) => spec_parse(data@) is None,
            },
    {
        if data.len() < 4 {
            return Err("Invalid message length".to_owned());
        }
        let length: u16 = ((data[0] as u16) << 8) | (data[1] as u16);
        let message_type: u16 = ((data[2] as u16) << 8) | (data[3] as u16);
        if data.len() != (length as usize) + 2 {
            return Err("Message length mismatch".to_owned());
        }
        let mut tlv_data: Vec<u8> = Vec::new();
        let mut j: usize = 4;
        while j < data.len()
            invariant
                4 <= j <= data@.len(),
                tlv_data@ =~= data@.subrange(4, j as int),
            decreases data@.len() - j,
        {
            tlv_data.push(data[j]);
            j = j + 1;
        }
        proof {
            assert(tlv_data@ =~= data@.skip(4));
        }
        let items: Vec<TlvItem> = match TlvEncoder::decode(tlv_data.as_slice()) {
            Ok(v) => v,
            Err(e) => {
                return Err(e);
            },
        };
        if message_type == CLIENT_REQUEST_CODE {
            Ok((MessageType::ClientRequest, items))
        } else if message_type == SERVER_RESPONSE_CODE {
            Ok((MessageType::ServerResponse, items))
        } else {
            Err("Unknown message type".to_owned())
        }
    }

    /// Turns a decoded item list into the raw key/value bag: each item's
    /// rendered value under its dictionary name, or under `TAG_` plus the
    /// hex tag when unknown; a later item deliberately overwrites an
    /// earlier one that shares its name.
    pub fn items_to_object(items: &[TlvItem]) -> (r: RawMap)
        requires
            forall|k: int|
                0 <= k < items@.len() ==> (#[trigger] items.deep_view()[k]).value.len()
                    < usize::MAX / 4,
        ensures
            r@ == spec_items_object(items.deep_view()),
    {
        let mut r: RawMap = RawMap::new();
        let mut i: usize = 0;
        while i < items.len()
            invariant
                i <= items@.len(),
                items.deep_view().len() == items@.len(),
                forall|k: int|
                    0 <= k < items@.len() ==> (#[trigger] items.deep_view()[k]).value.len()
                        < usize::MAX / 4,
                r@ =~= spec_items_object(items.deep_view().take(i as int)),
            decreases items@.len() - i,
        {
            let item: &TlvItem = &items[i];
            proof {
                assert(items.deep_view()[i as int] == item@);
            }
            let key: String = match &item.definition {
                Some(d) => d.name.clone(),
                None => {
                    let hex: String = hex_u32_string(item.tag);
                    "TAG_".to_owned().concat(hex.as_str())
                },
            };
            let value: String = TlvEncoder::value_to_string(item);
            proof {
                assert(key@ == spec_item_key(item@));
            }
            r.insert(key, value);
            i = i + 1;
            proof {
                assert(items.deep_view().take(i as int).drop_last() =~= items.deep_view().take(
                    i as int - 1,
                ));
                assert(items.deep_view().take(i as int).last() == item@);
                assert(r@ =~= spec_items_object(items.deep_view().take(i as int)));
            }
        }
        proof {
            assert(items.deep_view().take(items@.len() as int) =~= items.deep_view());
        }
        r
    }
}

/// The encoding of a list prefix is a prefix of the whole encoding.
proof fn lemma_encode_prefix_len(s: Seq<TlvItemView>, i: int)
    requires
        0 <= i <= s.len(),
    ensures
        spec_encode_items(s.take(i)).len() <= spec_encode_items(s).len(),
    decreases s.len() - i,
{
    if i < s.len() {
        lemma_encode_items_snoc(s, i);
        lemma_encode_prefix_len(s, i + 1);
    } else {
        assert(s.take(i) =~= s);
    }
}

/// Round trip of the envelope: parsing a framed item list recovers the
/// message type and the items, for every recognized type and every
/// round-trippable item list whose body the 16-bit length field covers.
pub proof fn lemma_frame_roundtrip(mtype: MessageType, items: Seq<TlvItemView>)
    requires
        spec_items_roundtrip(items),
        spec_encode_items(items).len() + 2 <= 0xffff,
    ensures
        spec_parse(spec_frame(mtype, spec_encode_items(items))) == Some((mtype, items)),
{
    let body = spec_encode_items(items);
    let data = spec_frame(mtype, body);
    let ml = (body.len() + 2) as usize;
    let wire = spec_wire_code(mtype);
    assert(data.len() == body.len() + 4);
    assert(data[0] == ((ml >> 8) & 0xff) as u8);
    assert(data[1] == (ml & 0xff) as u8);
    assert(data[2] == ((wire >> 8) & 0xff) as u8);
    assert(data[3] == (wire & 0xff) as u8);
    let length = ((data[0] as u16) << 8) | (data[1] as u16);
    assert((((((ml >> 8) & 0xff) as u8) as u16) << 8) | (((ml & 0xff) as u8) as u16) == ml as u16
        && (ml as u16) as usize == ml)
        by (bit_vector)
        requires
            ml <= 0xffff,
    ;
    assert(length == ml as u16);
    let wire2 = ((data[2] as u16) << 8) | (data[3] as u16);
    assert((((((wire >> 8) & 0xff) as u8) as u16) << 8) | (((wire & 0xff) as u8) as u16) == wire)
        by (bit_vector);
    assert(wire2 == wire);
    assert(data.len() == length + 2);
    assert(data.skip(4) =~= body);
    assert(body.subrange(0, body.len() as int) =~= body);
    lemma_decode_stream(body, 0, items);
    assert(spec_decode(data.skip(4)) == Some(items));
    match mtype {
        MessageType::ClientRequest => {
            assert(spec_parse(data) == Some((mtype, items)));
        },
        MessageType::ServerResponse => {
            assert(spec_parse(data) == Some((mtype, items)));
        },
    }
}

} // verus!
