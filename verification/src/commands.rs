//! The per-operation command context and the three commands: purchase,
//! refund and totals. Each command exposes the TLV item list of its TTK
//! request and the field list of its INPAS request; the dispatcher
//! prepends the ECR number to the former and fills timestamp and serial
//! number into the latter.

use vstd::prelude::*;

use rand::Rng;

use crate::inpas::InpasField;
use crate::inpas::InpasFieldView;
use crate::strutil::dec_string;
use crate::strutil::dec_string_padded;
use crate::strutil::spec_dec;
use crate::strutil::spec_dec_padded;
use crate::strutil::str_eq;
use crate::tags::get_tag_definition;
use crate::tags::spec_tag_definition;
use crate::tlv::TlvItem;
use crate::tlv::TlvItemView;
use crate::types::ConnectionConfig;
use crate::types::ProtocolType;
use crate::types::TagDefinition;
use vstd::string::StringSliceAdditionalSpecFns;
use vstd::utf8::encode_utf8;

verus! {

/// Relies on rand's thread_rng and Rng::gen: a random 32-bit value, of
/// which nothing is promised.
#[verifier::external_body]
fn random_u32() -> (r: u32) {
    rand::thread_rng().gen::<u32>()
}

/// Relies on rand's Rng::gen_range over `0..9_999_999_999`: a value drawn
/// from the given half-open range.
#[verifier::external_body]
fn random_ern() -> (r: u64)
    ensures
        r < 9_999_999_999,
{
    rand::thread_rng().gen_range(0..9999999999u64)
}

/// Relies on chrono's Local::now and strftime formatting with
/// `%Y%m%d%H%M%S`: the local wall-clock time; nothing is promised of the
/// clock's value.
#[verifier::external_body]
fn current_timestamp_string() -> (r: String) {
    chrono::Local::now().format("%Y%m%d%H%M%S").to_string()
}

/// The byte value of a decimal digit character.
pub open spec fn spec_digit_of(c: char) -> u8 {
    if c == '0' {
        0
    } else if c == '1' {
        1
    } else if c == '2' {
        2
    } else if c == '3' {
        3
    } else if c == '4' {
        4
    } else if c == '5' {
        5
    } else if c == '6' {
        6
    } else if c == '7' {
        7
    } else if c == '8' {
        8
    } else if c == '9' {
        9
    } else {
        0
    }
}

/// The wire BCD of a value: one byte per digit of its zero-left-padded
/// decimal rendering, each byte holding the digit's value.
pub open spec fn spec_bcd_of(value: nat, width: nat) -> Seq<u8> {
    spec_dec_padded(value, width).map_values(|c: char| spec_digit_of(c))
}

/// Whether the field list holds a field with the given id.
pub open spec fn spec_has_field(fs: Seq<InpasFieldView>, id: Seq<char>) -> bool {
    exists|i: int| 0 <= i < fs.len() && (#[trigger] fs[i]).id == id
}

/// The field list with a timestamp field "21" and a serial-number field
/// "27" appended, each only when the list has none.
pub open spec fn spec_fill_fields(
    fs: Seq<InpasFieldView>,
    ts: Seq<char>,
    serial: Seq<char>,
) -> Seq<InpasFieldView> {
    let has21 = spec_has_field(fs, "21"@);
    let has27 = spec_has_field(fs, "27"@);
    let with_ts = if has21 {
        fs
    } else {
        fs.push(InpasFieldView { id: "21"@, value: ts })
    };
    if has27 {
        with_ts
    } else {
        with_ts.push(InpasFieldView { id: "27"@, value: serial })
    }
}

fn has_field(fields: &Vec<InpasField>, id: &str) -> (r: bool)
    ensures
        r == spec_has_field(fields.deep_view(), id@),
{
    let mut i: usize = 0;
    while i < fields.len()
        invariant
            i <= fields@.len(),
            fields.deep_view().len() == fields@.len(),
            forall|j: int| 0 <= j < i ==> (#[trigger] fields.deep_view()[j]).id != id@,
        decreases fields@.len() - i,
    {
        if str_eq(fields[i].id.as_str(), id) {
            assert(fields.deep_view()[i as int].id == id@);
            return true;
        }
        i = i + 1;
    }
    false
}

/// Appends the timestamp field "21" and the serial-number field "27" to a
/// field list, each only when no field with that id is present.
pub fn fill_inpas_fields(fields: Vec<InpasField>, timestamp: String, serial: &str) -> (r: Vec<
    InpasField,
>)
    ensures
        r.deep_view() == spec_fill_fields(fields.deep_view(), timestamp@, serial@),
{
    let ghost fs = fields.deep_view();
    let mut out: Vec<InpasField> = fields;
    let has21: bool = has_field(&out, "21");
    let has27: bool = has_field(&out, "27");
    if !has21 {
        let ghost before = out.deep_view();
        out.push(InpasField { id: "21".to_owned(), value: timestamp });
        proof {
            assert(out.deep_view() =~= before.push(
                InpasFieldView { id: "21"@, value: timestamp@ },
            ));
        }
    }
    if !has27 {
        let ghost before = out.deep_view();
        out.push(InpasField { id: "27".to_owned(), value: serial.to_owned() });
        proof {
            assert(out.deep_view() =~= before.push(InpasFieldView { id: "27"@, value: serial@ }));
        }
    }
    proof {
        assert(out.deep_view() =~= spec_fill_fields(fs, timestamp@, serial@));
    }
    out
}

/// Per-operation state: the connection configuration, a fresh 31-bit
/// request id, and a fresh random ERN.
#[derive(Debug)]
pub struct CommandContext {
    pub config: ConnectionConfig,
    pub request_id: u32,
    pub ern: u64,
}

impl CommandContext {
    /// Draws a random request id, masked to 31 bits, and an ERN uniform
    /// below ten billion.
    pub fn new(config: ConnectionConfig) -> (r: Self)
        ensures
            r.request_id < 0x8000_0000,
            r.ern < 9_999_999_999,
            r.config == config,
    {
        let raw: u32 = random_u32();
        let request_id: u32 = raw & 0x7fffffff;
        proof {
            assert((raw & 0x7fffffffu32) < 0x80000000u32) by (bit_vector);
        }
        let ern: u64 = random_ern();
        CommandContext { config, request_id, ern }
    }

    /// The connection configuration the context carries.
    pub fn config(&self) -> (r: &ConnectionConfig)
        ensures
            r == &self.config,
    {
        &self.config
    }

    /// Whether the dispatcher should take the INPAS branch.
    pub fn should_use_inpas(&self) -> (r: bool)
        ensures
            r == (self.config.protocol == ProtocolType::Inpas),
    {
        self.config.protocol == ProtocolType::Inpas
    }

    /// The value's digits as wire BCD: one byte per digit of the
    /// zero-left-padded decimal rendering.
    pub fn int_to_bcd(&self, value: u64, length: usize) -> (r: Vec<u8>)
        ensures
            r@ == spec_bcd_of(value as nat, length as nat),
    {
        let s: String = dec_string_padded(value, length);
        let n: usize = s.as_str().unicode_len();
        let mut r: Vec<u8> = Vec::new();
        let mut i: usize = 0;
        while i < n
            invariant
                i <= n,
                n == s@.len(),
                r@ =~= s@.take(i as int).map_values(|c: char| spec_digit_of(c)),
            decreases n - i,
        {
            let c: char = s.as_str().get_char(i);
            let d: u8 = match c {
                '0' => 0,
                '1' => 1,
                '2' => 2,
                '3' => 3,
                '4' => 4,
                '5' => 5,
                '6' => 6,
                '7' => 7,
                '8' => 8,
                '9' => 9,
                _ => 0,
            };
            r.push(d);
            i = i + 1;
            proof {
                assert(r@ =~= s@.take(i as int).map_values(|ch: char| spec_digit_of(ch)));
            }
        }
        proof {
            assert(s@.take(n as int) =~= s@);
            assert(r@ =~= spec_bcd_of(value as nat, length as nat));
        }
        r
    }

    /// The zero-left-padded decimal string of the value.
    pub fn int_to_string(&self, number: u64, len: usize) -> (r: String)
        ensures
            r@ == spec_dec_padded(number as nat, len as nat),
    {
        dec_string_padded(number, len)
    }

    /// The UTF-8 bytes of a string.
    pub fn string_to_bytes(&self, text: &str) -> (r: Vec<u8>)
        ensures
            r@ == text.spec_bytes(),
    {
        let bytes: &[u8] = text.as_bytes();
        let mut r: Vec<u8> = Vec::new();
        let mut i: usize = 0;
        while i < bytes.len()
            invariant
                i <= bytes@.len(),
                r@ =~= bytes@.take(i as int),
            decreases bytes@.len() - i,
        {
            r.push(bytes[i]);
            i = i + 1;
        }
        proof {
            assert(bytes@.take(bytes@.len() as int) =~= bytes@);
        }
        r
    }

    /// Fills timestamp and serial number into a field list: the timestamp
    /// is the local clock's, so only its presence is promised.
    pub fn build_inpas_fields(&self, fields: Vec<InpasField>) -> (r: Vec<InpasField>)
        ensures
            exists|ts: Seq<char>|
                r.deep_view() == spec_fill_fields(
                    fields.deep_view(),
                    ts,
                    self.config.serial_number@,
                ),
    {
        let ts: String = current_timestamp_string();
        let ghost witness = ts@;
        let r: Vec<InpasField> = fill_inpas_fields(fields, ts, self.config.serial_number.as_str());
        proof {
            assert(r.deep_view() == spec_fill_fields(
                fields.deep_view(),
                witness,
                self.config.serial_number@,
            ));
        }
        r
    }
}

/// A command that can render its TTK item list and its INPAS field list.
pub trait BaseCommand {
    fn prepare(&self, context: &CommandContext) -> Vec<TlvItem>;

    fn prepare_inpas_fields(&self, context: &CommandContext) -> Vec<InpasField>;
}

/// The TTK item triple every purchase-shaped command sends: the message
/// id, the context's ERN as ten BCD bytes, and the amount as a twelve-digit
/// decimal string.
pub open spec fn spec_amount_items(msg: Seq<char>, ern: u64, amount: u64) -> Seq<TlvItemView> {
    seq![
        TlvItemView {
            tag: 0x01,
            length: 3,
            value: encode_utf8(msg),
            definition: spec_tag_definition(0x01),
        },
        TlvItemView {
            tag: 0x03,
            length: 10,
            value: spec_bcd_of(ern as nat, 10),
            definition: spec_tag_definition(0x03),
        },
        TlvItemView {
            tag: 0x04,
            length: 12,
            value: encode_utf8(spec_dec_padded(amount as nat, 12)),
            definition: spec_tag_definition(0x04),
        },
    ]
}

/// The INPAS field triple of a purchase-shaped command: amount, currency,
/// and the operation code.
pub open spec fn spec_amount_fields(amount: u64, currency: Seq<char>, op: Seq<char>)
    -> Seq<InpasFieldView> {
    seq![
        InpasFieldView { id: "00"@, value: spec_dec(amount as nat) },
        InpasFieldView { id: "04"@, value: currency },
        InpasFieldView { id: "25"@, value: op },
    ]
}

fn require_tag(tag: u32) -> (r: TagDefinition)
    requires
        spec_tag_definition(tag) is Some,
    ensures
        Some(r@) == spec_tag_definition(tag),
{
    match get_tag_definition(tag) {
        Some(d) => d,
        None => vstd::pervasive::unreached(),
    }
}

fn prepare_amount_items(msg: &str, context: &CommandContext, amount: u64) -> (r: Vec<TlvItem>)
    requires
        spec_tag_definition(0x01) is Some,
        spec_tag_definition(0x03) is Some,
        spec_tag_definition(0x04) is Some,
    ensures
        r.deep_view() == spec_amount_items(msg@, context.ern, amount),
{
    let message_id_tag: TagDefinition = require_tag(0x01);
    let ern_tag: TagDefinition = require_tag(0x03);
    let transaction_amount_tag: TagDefinition = require_tag(0x04);
    let mut r: Vec<TlvItem> = Vec::new();
    r.push(
        TlvItem {
            tag: message_id_tag.tag,
            length: 3,
            value: context.string_to_bytes(msg),
            definition: Some(message_id_tag),
        },
    );
    r.push(
        TlvItem {
            tag: ern_tag.tag,
            length: 10,
            value: context.int_to_bcd(context.ern, 10),
            definition: Some(ern_tag),
        },
    );
    let amount_text: String = context.int_to_string(amount, 12);
    r.push(
        TlvItem {
            tag: transaction_amount_tag.tag,
            length: 12,
            value: context.string_to_bytes(amount_text.as_str()),
            definition: Some(transaction_amount_tag),
        },
    );
    proof {
        assert(r.deep_view() =~= spec_amount_items(msg@, context.ern, amount));
    }
    r
}

fn make_field(id: &str, value: String) -> (r: InpasField)
    ensures
        r@ == (InpasFieldView { id: id@, value: value@ }),
{
    InpasField { id: id.to_owned(), value }
}

/// The purchase command.
#[derive(Debug)]
pub struct PaymentCommand {
    pub amount: u64,
    pub currency: String,
}

impl PaymentCommand {
    /// A purchase of the given minor-unit amount; the currency defaults to
    /// the ISO numeric code 643.
    pub fn new(amount: u64, currency: Option<String>) -> (r: Self)
        ensures
            r.amount == amount,
            r.currency@ == (match currency {
                Some(c) => c@,
                None => "643"@,
            }),
    {
        let currency: String = match currency {
            Some(c) => c,
            None => "643".to_owned(),
        };
        PaymentCommand { amount, currency }
    }

    /// The TTK items: message id "PUR", the ERN, and the amount.
    pub fn prepare(&self, context: &CommandContext) -> (r: Vec<TlvItem>)
        ensures
            r.deep_view() == spec_amount_items("PUR"@, context.ern, self.amount),
    {
        prepare_amount_items("PUR", context, self.amount)
    }

    /// The INPAS fields: amount, currency, and operation code "01".
    pub fn prepare_inpas(&self, _context: &CommandContext) -> (r: Vec<InpasField>)
        ensures
            r.deep_view() == spec_amount_fields(self.amount, self.currency@, "01"@),
    {
        let mut r: Vec<InpasField> = Vec::new();
        r.push(make_field("00", dec_string(self.amount)));
        r.push(make_field("04", self.currency.clone()));
        r.push(make_field("25", "01".to_owned()));
        proof {
            assert(r.deep_view() =~= spec_amount_fields(self.amount, self.currency@, "01"@));
        }
        r
    }
}

impl BaseCommand for PaymentCommand {
    fn prepare(&self, context: &CommandContext) -> Vec<TlvItem> {
        PaymentCommand::prepare(self, context)
    }

    fn prepare_inpas_fields(&self, context: &CommandContext) -> Vec<InpasField> {
        PaymentCommand::prepare_inpas(self, context)
    }
}

/// The refund command.
#[derive(Debug)]
pub struct RefundCommand {
    pub amount: u64,
    pub currency: String,
}

impl RefundCommand {
    /// A refund of the given minor-unit amount; the currency defaults to
    /// the ISO numeric code 643.
    pub fn new(amount: u64, currency: Option<String>) -> (r: Self)
        ensures
            r.amount == amount,
            r.currency@ == (match currency {
                Some(c) => c@,
                None => "643"@,
            }),
    {
        let currency: String = match currency {
            Some(c) => c,
            None => "643".to_owned(),
        };
        RefundCommand { amount, currency }
    }

    /// The TTK items: message id "REF", the ERN, and the amount.
    pub fn prepare(&self, context: &CommandContext) -> (r: Vec<TlvItem>)
        ensures
            r.deep_view() == spec_amount_items("REF"@, context.ern, self.amount),
    {
        prepare_amount_items("REF", context, self.amount)
    }

    /// The INPAS fields: amount, currency, and operation code "29".
    pub fn prepare_inpas(&self, _context: &CommandContext) -> (r: Vec<InpasField>)
        ensures
            r.deep_view() == spec_amount_fields(self.amount, self.currency@, "29"@),
    {
        let mut r: Vec<InpasField> = Vec::new();
        r.push(make_field("00", dec_string(self.amount)));
        r.push(make_field("04", self.currency.clone()));
        r.push(make_field("25", "29".to_owned()));
        proof {
            assert(r.deep_view() =~= spec_amount_fields(self.amount, self.currency@, "29"@));
        }
        r
    }
}

impl BaseCommand for RefundCommand {
    fn prepare(&self, context: &CommandContext) -> Vec<TlvItem> {
        RefundCommand::prepare(self, context)
    }

    fn prepare_inpas_fields(&self, context: &CommandContext) -> Vec<InpasField> {
        RefundCommand::prepare_inpas(self, context)
    }
}

/// The TTK items of the totals command: message id "SRV", the ERN, and the
/// totals subfunction "2".
pub open spec fn spec_totals_items(ern: u64) -> Seq<TlvItemView> {
    seq![
        TlvItemView {
            tag: 0x01,
            length: 3,
            value: encode_utf8("SRV"@),
            definition: spec_tag_definition(0x01),
        },
        TlvItemView {
            tag: 0x03,
            length: 10,
            value: spec_bcd_of(ern as nat, 10),
            definition: spec_tag_definition(0x03),
        },
        TlvItemView {
            tag: 0x1a,
            length: 1,
            value: encode_utf8("2"@),
            definition: spec_tag_definition(0x1a),
        },
    ]
}

/// The totals (service) command.
#[derive(Debug)]
pub struct TotalsCommand;

impl TotalsCommand {
    /// The totals command carries no parameters.
    pub fn new() -> (r: Self) {
        TotalsCommand
    }

    /// The TTK items: message id "SRV", the ERN, and subfunction "2".
    pub fn prepare(&self, context: &CommandContext) -> (r: Vec<TlvItem>)
        ensures
            r.deep_view() == spec_totals_items(context.ern),
    {
        let message_id_tag: TagDefinition = require_tag(0x01);
        let ern_tag: TagDefinition = require_tag(0x03);
        let srv_subfunction_tag: TagDefinition = require_tag(0x1a);
        let mut r: Vec<TlvItem> = Vec::new();
        r.push(
            TlvItem {
                tag: message_id_tag.tag,
                length: 3,
                value: context.string_to_bytes("SRV"),
                definition: Some(message_id_tag),
            },
        );
        r.push(
            TlvItem {
                tag: ern_tag.tag,
                length: 10,
                value: context.int_to_bcd(context.ern, 10),
                definition: Some(ern_tag),
            },
        );
        r.push(
            TlvItem {
                tag: srv_subfunction_tag.tag,
                length: 1,
                value: context.string_to_bytes("2"),
                definition: Some(srv_subfunction_tag),
            },
        );
        proof {
            assert(r.deep_view() =~= spec_totals_items(context.ern));
        }
        r
    }

    /// The INPAS fields: the totals operation code "59" alone.
    pub fn prepare_inpas(&self, _context: &CommandContext) -> (r: Vec<InpasField>)
        ensures
            r.deep_view() == seq![(InpasFieldView { id: "25"@, value: "59"@ })],
    {
        let mut r: Vec<InpasField> = Vec::new();
        r.push(make_field("25", "59".to_owned()));
        proof {
            assert(r.deep_view() =~= seq![(InpasFieldView { id: "25"@, value: "59"@ })]);
        }
        r
    }
}

impl BaseCommand for TotalsCommand {
    fn prepare(&self, context: &CommandContext) -> Vec<TlvItem> {
        TotalsCommand::prepare(self, context)
    }

    fn prepare_inpas_fields(&self, context: &CommandContext) -> Vec<InpasField> {
        TotalsCommand::prepare_inpas(self, context)
    }
}

} // verus!
