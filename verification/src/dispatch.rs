//! The command dispatcher's decisions. The TTK branch frames a command's
//! items — the ECR number prepended — as a client request, and judges each
//! frame read back: a server response carrying a "Response Code" entry
//! ends the read loop with the normalized response, any other frame is
//! discarded. The I/O around these decisions — the write, the reads with
//! their timeout, the HTTP post of the INPAS branch — lives outside the
//! library.

use vstd::prelude::*;

use crate::frame::TtkBuffer;
use crate::frame::spec_frame;
use crate::frame::spec_items_object;
use crate::frame::spec_parse;
use crate::normalize::build_terminal_response_from_raw;
use crate::normalize::spec_build_response;
use crate::rawmap::RawMap;
use crate::strutil::str_eq;
use crate::tags::spec_tag_definition;
use crate::tlv::TlvItem;
use crate::tlv::TlvItemView;
use crate::tlv::spec_decode_from;
use crate::tlv::spec_encode_items;
use crate::types::ConnectionConfig;
use crate::types::MessageType;
use crate::types::ProtocolType;
use crate::types::TerminalError;
use crate::types::TerminalResponse;
use vstd::string::StringSliceAdditionalSpecFns;
use vstd::utf8::encode_utf8;

verus! {

/// A command's item list with the ECR-number item prepended: tag 0x02,
/// the stated length 8, and the serial number's UTF-8 bytes as value.
pub open spec fn spec_ttk_items_with_ecr(items: Seq<TlvItemView>, serial: Seq<char>) -> Seq<
    TlvItemView,
> {
    seq![
        TlvItemView {
            tag: 0x02,
            length: 8,
            value: encode_utf8(serial),
            definition: spec_tag_definition(0x02),
        },
    ] + items
}

/// The read timeout of the TTK loop: the configured one, else 30000 ms.
pub fn ttk_read_timeout(config: &ConnectionConfig) -> (r: u32)
    ensures
        r == (match config@.timeout {
            Some(t) => t,
            None => 30000u32,
        }),
{
    match config.timeout {
        Some(t) => t,
        None => 30000,
    }
}

/// Builds the outbound TTK request for a command's items: the ECR-number
/// item is prepended and the list framed as a client request.
pub fn ttk_build_request(items: Vec<TlvItem>, serial: &str) -> (r: Vec<u8>)
    requires
        spec_encode_items(spec_ttk_items_with_ecr(items.deep_view(), serial@)).len() + 2
            <= usize::MAX,
    ensures
        r@ == spec_frame(
            MessageType::ClientRequest,
            spec_encode_items(spec_ttk_items_with_ecr(items.deep_view(), serial@)),
        ),
{
    let ghost given = items.deep_view();
    let ecr_def = match crate::tags::get_tag_definition(0x02) {
        Some(d) => d,
        None => vstd::pervasive::unreached(),
    };
    let bytes: &[u8] = serial.as_bytes();
    let mut value: Vec<u8> = Vec::new();
    let mut i: usize = 0;
    while i < bytes.len()
        invariant
            i <= bytes@.len(),
            value@ =~= bytes@.take(i as int),
        decreases bytes@.len() - i,
    {
        value.push(bytes[i]);
        i = i + 1;
    }
    proof {
        assert(value@ =~= bytes@);
    }
    let mut all: Vec<TlvItem> = Vec::new();
    all.push(TlvItem { tag: 0x02, length: 8, value, definition: Some(ecr_def) });
    let mut rest: Vec<TlvItem> = items;
    all.append(&mut rest);
    proof {
        assert(all.deep_view() =~= spec_ttk_items_with_ecr(given, serial@));
    }
    TtkBuffer::create_message(MessageType::ClientRequest, all.as_slice())
}

/// Whether a decoded item list carries an entry named "Response Code".
pub open spec fn spec_has_response_code(items: Seq<TlvItemView>) -> bool {
    exists|i: int|
        0 <= i < items.len() && match (#[trigger] items[i]).definition {
            Some(d) => d.name == "Response Code"@,
            None => false,
        }
}

/// Every value a stream decode yields fits inside the decoded buffer.
proof fn lemma_decode_values_bounded(data: Seq<u8>, offset: int)
    ensures
        match spec_decode_from(data, offset) {
            Some(items) => forall|k: int|
                0 <= k < items.len() ==> (#[trigger] items[k]).value.len() <= data.len(),
            None => true,
        },
    decreases data.len() - offset,
{
    if offset < data.len() {
        match crate::tlv::spec_decode_tag(data, offset) {
            None => {
            },
            Some((tag, tw)) => {
                match crate::tlv::spec_decode_length(data, offset + tw) {
                    None => {
                    },
                    Some((length, lw)) => {
                        let vstart = offset + tw + lw;
                        if length <= data.len() - vstart {
                            lemma_decode_values_bounded(data, vstart + length);
                        }
                    },
                }
            },
        }
    }
}

/// Judges one frame of the TTK read loop: a parse failure is an invalid
/// frame; a server response whose items carry a "Response Code" entry is
/// the awaited answer and is normalized; any other frame is discarded and
/// the loop reads on.
pub fn ttk_handle_frame(data: &[u8]) -> (r: Result<Option<TerminalResponse>, TerminalError>)
    requires
        data@.len() < usize::MAX / 4,
    ensures
        match r {
            Ok(Some(resp)) => spec_parse(data@) matches Some((t, items)) && t
                == MessageType::ServerResponse && spec_has_response_code(items) && resp@
                == spec_build_response(ProtocolType::Ttk, spec_items_object(items)),
            Ok(None) => spec_parse(data@) matches Some((t, items)) && (t
                != MessageType::ServerResponse || !spec_has_response_code(items)),
            Err(e) => spec_parse(data@) is None && e@ is InvalidFrame,
        },
{
    let (response_type, response_items) = match TtkBuffer::parse_message(data) {
        Ok(v) => v,
        Err(m) => {
            return Err(TerminalError::InvalidFrame(m));
        },
    };
    if response_type == MessageType::ServerResponse {
        let mut has_code: bool = false;
        let mut i: usize = 0;
        while i < response_items.len()
            invariant
                i <= response_items@.len(),
                response_items.deep_view().len() == response_items@.len(),
                has_code ==> spec_has_response_code(response_items.deep_view()),
                !has_code ==> forall|j: int|
                    0 <= j < i ==> match (#[trigger] response_items.deep_view()[j]).definition {
                        Some(d) => d.name != "Response Code"@,
                        None => true,
                    },
            decreases response_items@.len() - i,
        {
            match &response_items[i].definition {
                Some(d) => {
                    if str_eq(d.name.as_str(), "Response Code") {
                        proof {
                            assert(response_items.deep_view()[i as int].definition matches Some(dv)
                                && dv.name == "Response Code"@);
                        }
                        has_code = true;
                    }
                },
                None => {
                },
            }
            i = i + 1;
        }
        if has_code {
            proof {
                lemma_decode_values_bounded(data@.skip(4), 0);
                assert(forall|k: int|
                    0 <= k < response_items.deep_view().len() ==> (#[trigger] response_items.deep_view()[k]).value.len()
                        < usize::MAX / 4);
            }
            let raw: RawMap = TtkBuffer::items_to_object(response_items.as_slice());
            return Ok(Some(build_terminal_response_from_raw(ProtocolType::Ttk, raw)));
        }
    }
    Ok(None)
}

} // verus!
