//! The tag dictionary of the TTK protocol: a process-wide, read-only table
//! keyed by numeric tag. Display names are not unique — client and server
//! variants of one logical field share a name — so lookup is always by tag.

use vstd::prelude::*;

use crate::types::DataType;
use crate::types::Encoding;
use crate::types::TagDefView;
use crate::types::TagDefinition;

verus! {

/// The dictionary as a mathematical function from tag to entry.
pub open spec fn spec_tag_definition(tag: u32) -> Option<TagDefView> {
    let s = DataType::String;
    let b = DataType::Bcd;
    let h = DataType::Hex;
    let y = DataType::Binary;
    let a = Some(Encoding::Ascii);
    if tag == 0x01 {
        Some(TagDefView { tag, name: "Message ID"@, data_type: s, encoding: a })
    } else if tag == 0x02 {
        Some(TagDefView { tag, name: "ECR Number"@, data_type: s, encoding: a })
    } else if tag == 0x03 {
        Some(TagDefView { tag, name: "ERN"@, data_type: b, encoding: None })
    } else if tag == 0x04 {
        Some(TagDefView { tag, name: "Transaction Amount"@, data_type: b, encoding: None })
    } else if tag == 0x0b {
        Some(TagDefView { tag, name: "Invoice Number"@, data_type: b, encoding: None })
    } else if tag == 0x0c {
        Some(TagDefView { tag, name: "Authorization ID"@, data_type: s, encoding: a })
    } else if tag == 0x1a {
        Some(TagDefView { tag, name: "SRV Subfunction"@, data_type: h, encoding: None })
    } else if tag == 0x1b {
        Some(TagDefView { tag, name: "Currency"@, data_type: b, encoding: None })
    } else if tag == 0x1f00 {
        Some(TagDefView { tag, name: "Input Code"@, data_type: b, encoding: None })
    } else if tag == 0x1f01 {
        Some(TagDefView { tag, name: "Input Data"@, data_type: s, encoding: a })
    } else if tag == 0x50 {
        Some(TagDefView { tag, name: "Application Label"@, data_type: s, encoding: a })
    } else if tag == 0x81 {
        Some(TagDefView { tag, name: "Message ID"@, data_type: s, encoding: a })
    } else if tag == 0x82 {
        Some(TagDefView { tag, name: "ECR Number"@, data_type: s, encoding: a })
    } else if tag == 0x83 {
        Some(TagDefView { tag, name: "ERN"@, data_type: b, encoding: None })
    } else if tag == 0x84 {
        Some(TagDefView { tag, name: "Transaction Amount"@, data_type: b, encoding: None })
    } else if tag == 0x89 {
        Some(TagDefView { tag, name: "PAN"@, data_type: b, encoding: None })
    } else if tag == 0x8b {
        Some(TagDefView { tag, name: "Invoice Number"@, data_type: b, encoding: None })
    } else if tag == 0x8c {
        Some(TagDefView { tag, name: "Authorization ID"@, data_type: s, encoding: a })
    } else if tag == 0x8d {
        Some(TagDefView { tag, name: "Date"@, data_type: b, encoding: None })
    } else if tag == 0x8e {
        Some(TagDefView { tag, name: "Time"@, data_type: b, encoding: None })
    } else if tag == 0x8f {
        Some(TagDefView { tag, name: "Issuer Name"@, data_type: s, encoding: a })
    } else if tag == 0x90 {
        Some(TagDefView { tag, name: "Merchant No"@, data_type: s, encoding: a })
    } else if tag == 0x91 {
        Some(TagDefView { tag, name: "Processing Code"@, data_type: h, encoding: None })
    } else if tag == 0x92 {
        Some(TagDefView { tag, name: "POS Entry Mode"@, data_type: h, encoding: None })
    } else if tag == 0x93 {
        Some(TagDefView { tag, name: "POS Condition Code"@, data_type: h, encoding: None })
    } else if tag == 0x94 {
        Some(TagDefView { tag, name: "Cardholder Verification"@, data_type: s, encoding: a })
    } else if tag == 0x95 {
        Some(TagDefView { tag, name: "TVR"@, data_type: h, encoding: None })
    } else if tag == 0x98 {
        Some(TagDefView { tag, name: "RRN"@, data_type: b, encoding: None })
    } else if tag == 0x99 {
        Some(TagDefView { tag, name: "Batch No"@, data_type: b, encoding: None })
    } else if tag == 0x9b {
        Some(TagDefView { tag, name: "Response Code"@, data_type: s, encoding: a })
    } else if tag == 0x9c {
        Some(TagDefView { tag, name: "Receipt"@, data_type: s, encoding: a })
    } else if tag == 0x9d {
        Some(TagDefView { tag, name: "Terminal ID"@, data_type: s, encoding: a })
    } else if tag == 0x9e {
        Some(TagDefView { tag, name: "Receipt PDS"@, data_type: y, encoding: None })
    } else if tag == 0x9f06 {
        Some(TagDefView { tag, name: "Application ID"@, data_type: s, encoding: a })
    } else if tag == 0x9f0e {
        Some(TagDefView { tag, name: "Receipt Second PDS"@, data_type: y, encoding: None })
    } else if tag == 0x9f26 {
        Some(TagDefView { tag, name: "TC"@, data_type: h, encoding: None })
    } else if tag == 0xa0 {
        Some(TagDefView { tag, name: "Visual Host Response"@, data_type: s, encoding: a })
    } else if tag == 0xa1 {
        Some(TagDefView { tag, name: "Approve"@, data_type: s, encoding: a })
    } else if tag == 0xa2 {
        Some(TagDefView { tag, name: "Transaction Amount #2"@, data_type: b, encoding: None })
    } else {
        None
    }
}

fn make(tag: u32, name: &str, data_type: DataType, encoding: Option<Encoding>) -> (r:
    TagDefinition)
    ensures
        r@ == (TagDefView { tag, name: name@, data_type, encoding }),
{
    TagDefinition { tag, name: name.to_owned(), data_type, encoding }
}

/// Looks a tag up in the dictionary.
pub fn get_tag_definition(tag: u32) -> (r: Option<TagDefinition>)
    ensures
        match r {
            Some(d) => spec_tag_definition(tag) == Some(d@),
            None => spec_tag_definition(tag) is None,
        },
{
    let s = DataType::String;
    let b = DataType::Bcd;
    let h = DataType::Hex;
    let y = DataType::Binary;
    let a = Some(Encoding::Ascii);
    match tag {
        0x01 => Some(make(tag, "Message ID", s, a)),
        0x02 => Some(make(tag, "ECR Number", s, a)),
        0x03 => Some(make(tag, "ERN", b, None)),
        0x04 => Some(make(tag, "Transaction Amount", b, None)),
        0x0b => Some(make(tag, "Invoice Number", b, None)),
        0x0c => Some(make(tag, "Authorization ID", s, a)),
        0x1a => Some(make(tag, "SRV Subfunction", h, None)),
        0x1b => Some(make(tag, "Currency", b, None)),
        0x1f00 => Some(make(tag, "Input Code", b, None)),
        0x1f01 => Some(make(tag, "Input Data", s, a)),
        0x50 => Some(make(tag, "Application Label", s, a)),
        0x81 => Some(make(tag, "Message ID", s, a)),
        0x82 => Some(make(tag, "ECR Number", s, a)),
        0x83 => Some(make(tag, "ERN", b, None)),
        0x84 => Some(make(tag, "Transaction Amount", b, None)),
        0x89 => Some(make(tag, "PAN", b, None)),
        0x8b => Some(make(tag, "Invoice Number", b, None)),
        0x8c => Some(make(tag, "Authorization ID", s, a)),
        0x8d => Some(make(tag, "Date", b, None)),
        0x8e => Some(make(tag, "Time", b, None)),
        0x8f => Some(make(tag, "Issuer Name", s, a)),
        0x90 => Some(make(tag, "Merchant No", s, a)),
        0x91 => Some(make(tag, "Processing Code", h, None)),
        0x92 => Some(make(tag, "POS Entry Mode", h, None)),
        0x93 => Some(make(tag, "POS Condition Code", h, None)),
        0x94 => Some(make(tag, "Cardholder Verification", s, a)),
        0x95 => Some(make(tag, "TVR", h, None)),
        0x98 => Some(make(tag, "RRN", b, None)),
        0x99 => Some(make(tag, "Batch No", b, None)),
        0x9b => Some(make(tag, "Response Code", s, a)),
        0x9c => Some(make(tag, "Receipt", s, a)),
        0x9d => Some(make(tag, "Terminal ID", s, a)),
        0x9e => Some(make(tag, "Receipt PDS", y, None)),
        0x9f06 => Some(make(tag, "Application ID", s, a)),
        0x9f0e => Some(make(tag, "Receipt Second PDS", y, None)),
        0x9f26 => Some(make(tag, "TC", h, None)),
        0xa0 => Some(make(tag, "Visual Host Response", s, a)),
        0xa1 => Some(make(tag, "Approve", s, a)),
        0xa2 => Some(make(tag, "Transaction Amount #2", b, None)),
        _ => None,
    }
}

} // verus!
