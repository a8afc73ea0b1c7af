//! The response normalizer: maps each protocol's raw key/value bag onto the
//! uniform transaction record, collects unknown keys into extras, and
//! derives the success verdict and the aggregate code/message/error fields.

use vstd::prelude::*;

use crate::rawmap::RawMap;
use crate::rawmap::entries_map;
use crate::strutil::contains_str;
use crate::strutil::is_all_zeros;
use crate::strutil::spec_all_zeros;
use crate::strutil::str_eq;
use crate::types::NormalizedDataView;
use crate::types::NormalizedTransactionData;
use crate::types::ProtocolType;
use crate::types::TerminalResponse;
use crate::types::TerminalResponseView;

verus! {

/// A raw map's value under a key, when the key is present.
pub open spec fn map_get(m: Map<Seq<char>, Seq<char>>, k: Seq<char>) -> Option<Seq<char>> {
    if m.contains_key(k) {
        Some(m[k])
    } else {
        None
    }
}

/// The keys the TTK mapping consumes; anything else lands in extras.
pub open spec fn spec_ttk_known_seq() -> Seq<Seq<char>> {
    seq![
        "Message ID"@,
        "ECR Number"@,
        "Response Code"@,
        "Approve"@,
        "Transaction Amount"@,
        "Transaction Amount #2"@,
        "RRN"@,
        "Invoice Number"@,
        "Authorization ID"@,
        "Terminal ID"@,
        "Merchant No"@,
        "Batch No"@,
        "PAN"@,
        "Date"@,
        "Time"@,
        "POS Entry Mode"@,
        "Cardholder Verification"@,
        "Visual Host Response"@,
        "Receipt"@,
        "Application Label"@,
        "Issuer Name"@,
    ]
}

/// The TTK known keys as a set.
pub open spec fn spec_ttk_known_keys() -> Set<Seq<char>> {
    spec_ttk_known_seq().to_set()
}

/// The field ids the INPAS mapping consumes; anything else lands in extras.
pub open spec fn spec_inpas_known_seq() -> Seq<Seq<char>> {
    seq![
        "00"@,
        "01"@,
        "04"@,
        "06"@,
        "08"@,
        "09"@,
        "10"@,
        "13"@,
        "14"@,
        "15"@,
        "19"@,
        "21"@,
        "23"@,
        "25"@,
        "26"@,
        "27"@,
        "28"@,
        "39"@,
        "76"@,
        "77"@,
        "82"@,
        "90"@,
    ]
}

/// The INPAS known field ids as a set.
pub open spec fn spec_inpas_known_keys() -> Set<Seq<char>> {
    spec_inpas_known_seq().to_set()
}

/// The extras of a raw map: its entries under unknown keys, or nothing
/// when every key is known.
pub open spec fn spec_extras(
    raw: Map<Seq<char>, Seq<char>>,
    known: Set<Seq<char>>,
) -> Option<Map<Seq<char>, Seq<char>>> {
    let e = raw.remove_keys(known);
    if e == Map::<Seq<char>, Seq<char>>::empty() {
        None
    } else {
        Some(e)
    }
}

/// The INPAS cardholder-verification rewording: PIN coding modes "1" and
/// "2" both read "PIN"; anything else passes through.
pub open spec fn spec_pin_mode(v: Seq<char>) -> Seq<char> {
    if v == "1"@ || v == "2"@ {
        "PIN"@
    } else {
        v
    }
}

/// The TTK mapping: named keys copied verbatim, the amount falling back
/// from "Transaction Amount" to "Transaction Amount #2", and the timestamp
/// the concatenation of date and time when both are present.
pub open spec fn spec_normalize_ttk(raw: Map<Seq<char>, Seq<char>>) -> NormalizedDataView {
    NormalizedDataView {
        message_id: map_get(raw, "Message ID"@),
        operation_code: None,
        ecr_number: map_get(raw, "ECR Number"@),
        response_code: map_get(raw, "Response Code"@),
        approve: map_get(raw, "Approve"@),
        status: None,
        status_text: None,
        amount: if raw.contains_key("Transaction Amount"@) {
            Some(raw["Transaction Amount"@])
        } else {
            map_get(raw, "Transaction Amount #2"@)
        },
        additional_amount: None,
        currency: None,
        pan_masked: map_get(raw, "PAN"@),
        rrn: map_get(raw, "RRN"@),
        invoice_number: map_get(raw, "Invoice Number"@),
        authorization_code: map_get(raw, "Authorization ID"@),
        terminal_id: map_get(raw, "Terminal ID"@),
        merchant_id: map_get(raw, "Merchant No"@),
        batch_number: map_get(raw, "Batch No"@),
        date: map_get(raw, "Date"@),
        time: map_get(raw, "Time"@),
        timestamp: if raw.contains_key("Date"@) && raw.contains_key("Time"@) {
            Some(raw["Date"@] + raw["Time"@])
        } else {
            None
        },
        host_timestamp: None,
        card_entry_mode: map_get(raw, "POS Entry Mode"@),
        cardholder_verification: map_get(raw, "Cardholder Verification"@),
        text_response: map_get(raw, "Visual Host Response"@),
        receipt: map_get(raw, "Receipt"@),
        application_label: map_get(raw, "Application Label"@),
        issuer_name: map_get(raw, "Issuer Name"@),
        transaction_id: None,
        cashier_request: None,
        cashier_response: None,
        provider_code: None,
        raw: raw,
        extras: spec_extras(raw, spec_ttk_known_keys()),
    }
}

/// The INPAS mapping: numbered field ids onto the uniform record, with the
/// cardholder verification reworded through the PIN coding map.
pub open spec fn spec_normalize_inpas(raw: Map<Seq<char>, Seq<char>>) -> NormalizedDataView {
    NormalizedDataView {
        message_id: None,
        operation_code: map_get(raw, "25"@),
        ecr_number: None,
        response_code: map_get(raw, "15"@),
        approve: None,
        status: map_get(raw, "39"@),
        status_text: None,
        amount: map_get(raw, "00"@),
        additional_amount: map_get(raw, "01"@),
        currency: map_get(raw, "04"@),
        pan_masked: map_get(raw, "10"@),
        rrn: map_get(raw, "14"@),
        invoice_number: map_get(raw, "26"@),
        authorization_code: map_get(raw, "13"@),
        terminal_id: map_get(raw, "27"@),
        merchant_id: map_get(raw, "28"@),
        batch_number: None,
        date: None,
        time: None,
        timestamp: map_get(raw, "21"@),
        host_timestamp: map_get(raw, "06"@),
        card_entry_mode: map_get(raw, "08"@),
        cardholder_verification: match map_get(raw, "09"@) {
            Some(v) => Some(spec_pin_mode(v)),
            None => None,
        },
        text_response: map_get(raw, "19"@),
        receipt: map_get(raw, "90"@),
        application_label: None,
        issuer_name: None,
        transaction_id: map_get(raw, "23"@),
        cashier_request: map_get(raw, "76"@),
        cashier_response: map_get(raw, "77"@),
        provider_code: map_get(raw, "82"@),
        raw: raw,
        extras: spec_extras(raw, spec_inpas_known_keys()),
    }
}

/// Normalization, dispatched on the source protocol.
pub open spec fn spec_normalize(protocol: ProtocolType, raw: Map<Seq<char>, Seq<char>>)
    -> NormalizedDataView {
    match protocol {
        ProtocolType::Ttk => spec_normalize_ttk(raw),
        ProtocolType::Inpas => spec_normalize_inpas(raw),
    }
}

/// The positive success rules: an all-zero response code, an approve flag
/// reading "Y" in either case, or an all-zero status. The verdict itself
/// falls back to true even when none fires — see `determine_success`.
pub open spec fn spec_success_rules(d: NormalizedDataView) -> bool {
    ||| match d.response_code {
        Some(rc) => spec_all_zeros(rc),
        None => false,
    }
    ||| match d.approve {
        Some(a) => a == "Y"@ || a == "y"@,
        None => false,
    }
    ||| match d.status {
        Some(st) => spec_all_zeros(st),
        None => false,
    }
}

/// The aggregate response built over a raw map: always successful on this
/// path, with code and message drawn from the record by fallback chains.
pub open spec fn spec_build_response(
    protocol: ProtocolType,
    raw: Map<Seq<char>, Seq<char>>,
) -> TerminalResponseView {
    let d = spec_normalize(protocol, raw);
    let code = match d.response_code {
        Some(c) => Some(c),
        None => match d.status {
            Some(c) => Some(c),
            None => d.approve,
        },
    };
    let message = match d.text_response {
        Some(m) => Some(m),
        None => d.status_text,
    };
    TerminalResponseView { success: true, code, message, data: Some(d), error: None }
}

/// Normalizing a record's own raw map reproduces the record: the
/// normalizer is idempotent, for every raw map and either protocol.
pub proof fn lemma_normalize_idempotent(protocol: ProtocolType, raw: Map<Seq<char>, Seq<char>>)
    ensures
        spec_normalize(protocol, spec_normalize(protocol, raw).raw) == spec_normalize(
            protocol,
            raw,
        ),
{
}

/// Rewords the INPAS PIN coding modes "1" and "2" as "PIN"; anything else
/// passes through unchanged.
pub fn map_pin_coding_mode(value: String) -> (r: String)
    ensures
        r@ == spec_pin_mode(value@),
{
    if str_eq(value.as_str(), "1") || str_eq(value.as_str(), "2") {
        "PIN".to_owned()
    } else {
        value
    }
}

/// The concatenation of date and time, when both are present.
pub fn build_ttk_timestamp(date: Option<&String>, time: Option<&String>) -> (r: Option<String>)
    ensures
        match (date, time) {
            (Some(d), Some(t)) => r.deep_view() == Some(d@ + t@),
            _ => r.deep_view() == Option::<Seq<char>>::None,
        },
{
    match (date, time) {
        (Some(d), Some(t)) => Some(d.clone().concat(t.as_str())),
        _ => None,
    }
}

fn get_cloned(raw: &RawMap, key: &str) -> (r: Option<String>)
    ensures
        r.deep_view() == map_get(raw@, key@),
{
    match raw.get(key) {
        Some(v) => Some(v.clone()),
        None => None,
    }
}

/// Copies the entries whose keys are not in `known` into a fresh bag.
pub fn collect_extras(raw: &RawMap, known: &Vec<String>) -> (r: RawMap)
    ensures
        r@ == raw@.remove_keys(known.deep_view().to_set()),
{
    let kset = Ghost(known.deep_view().to_set());
    let mut r: RawMap = RawMap::new();
    let mut i: usize = 0;
    let n: usize = raw.entry_count();
    while i < n
        invariant
            i <= n,
            n == raw.pairs().len(),
            kset@ == known.deep_view().to_set(),
            r@ =~= entries_map(raw.pairs().take(i as int)).remove_keys(kset@),
        decreases n - i,
    {
        let key: &String = raw.key_at(i);
        let keep: bool = !contains_str(known, key.as_str());
        if keep {
            let value: &String = raw.value_at(i);
            r.insert(key.clone(), value.clone());
        }
        i = i + 1;
        proof {
            let prefix = raw.pairs().take(i as int);
            assert(prefix.drop_last() =~= raw.pairs().take(i as int - 1));
            assert(prefix.last() == raw.pairs()[i as int - 1]);
            if keep {
                assert(r@ =~= entries_map(prefix).remove_keys(kset@));
            } else {
                assert(kset@.contains(raw.pairs()[i as int - 1].0));
                assert(r@ =~= entries_map(prefix).remove_keys(kset@));
            }
        }
    }
    proof {
        assert(raw.pairs().take(n as int) =~= raw.pairs());
    }
    r
}

fn ttk_known_keys() -> (r: Vec<String>)
    ensures
        r.deep_view() =~= spec_ttk_known_seq(),
{
    let mut v: Vec<String> = Vec::new();
    v.push("Message ID".to_owned());
    v.push("ECR Number".to_owned());
    v.push("Response Code".to_owned());
    v.push("Approve".to_owned());
    v.push("Transaction Amount".to_owned());
    v.push("Transaction Amount #2".to_owned());
    v.push("RRN".to_owned());
    v.push("Invoice Number".to_owned());
    v.push("Authorization ID".to_owned());
    v.push("Terminal ID".to_owned());
    v.push("Merchant No".to_owned());
    v.push("Batch No".to_owned());
    v.push("PAN".to_owned());
    v.push("Date".to_owned());
    v.push("Time".to_owned());
    v.push("POS Entry Mode".to_owned());
    v.push("Cardholder Verification".to_owned());
    v.push("Visual Host Response".to_owned());
    v.push("Receipt".to_owned());
    v.push("Application Label".to_owned());
    v.push("Issuer Name".to_owned());
    proof {
        assert(v.deep_view() =~= spec_ttk_known_seq());
    }
    v
}

fn inpas_known_keys() -> (r: Vec<String>)
    ensures
        r.deep_view() =~= spec_inpas_known_seq(),
{
    let mut v: Vec<String> = Vec::new();
    v.push("00".to_owned());
    v.push("01".to_owned());
    v.push("04".to_owned());
    v.push("06".to_owned());
    v.push("08".to_owned());
    v.push("09".to_owned());
    v.push("10".to_owned());
    v.push("13".to_owned());
    v.push("14".to_owned());
    v.push("15".to_owned());
    v.push("19".to_owned());
    v.push("21".to_owned());
    v.push("23".to_owned());
    v.push("25".to_owned());
    v.push("26".to_owned());
    v.push("27".to_owned());
    v.push("28".to_owned());
    v.push("39".to_owned());
    v.push("76".to_owned());
    v.push("77".to_owned());
    v.push("82".to_owned());
    v.push("90".to_owned());
    proof {
        assert(v.deep_view() =~= spec_inpas_known_seq());
    }
    v
}

fn normalize_ttk(raw: &RawMap) -> (r: NormalizedTransactionData)
    ensures
        r@ == spec_normalize_ttk(raw@),
{
    let known: Vec<String> = ttk_known_keys();
    let extras_map: RawMap = collect_extras(raw, &known);
    let extras: Option<RawMap> = if extras_map.is_empty() {
        None
    } else {
        Some(extras_map)
    };
    let amount: Option<String> = match get_cloned(raw, "Transaction Amount") {
        Some(a) => Some(a),
        None => get_cloned(raw, "Transaction Amount #2"),
    };
    let date: Option<String> = get_cloned(raw, "Date");
    let time: Option<String> = get_cloned(raw, "Time");
    let timestamp: Option<String> = build_ttk_timestamp(date.as_ref(), time.as_ref());
    let data = NormalizedTransactionData {
        message_id: get_cloned(raw, "Message ID"),
        operation_code: None,
        ecr_number: get_cloned(raw, "ECR Number"),
        response_code: get_cloned(raw, "Response Code"),
        approve: get_cloned(raw, "Approve"),
        status: None,
        status_text: None,
        amount,
        additional_amount: None,
        currency: None,
        pan_masked: get_cloned(raw, "PAN"),
        rrn: get_cloned(raw, "RRN"),
        invoice_number: get_cloned(raw, "Invoice Number"),
        authorization_code: get_cloned(raw, "Authorization ID"),
        terminal_id: get_cloned(raw, "Terminal ID"),
        merchant_id: get_cloned(raw, "Merchant No"),
        batch_number: get_cloned(raw, "Batch No"),
        date,
        time,
        timestamp,
        host_timestamp: None,
        card_entry_mode: get_cloned(raw, "POS Entry Mode"),
        cardholder_verification: get_cloned(raw, "Cardholder Verification"),
        text_response: get_cloned(raw, "Visual Host Response"),
        receipt: get_cloned(raw, "Receipt"),
        application_label: get_cloned(raw, "Application Label"),
        issuer_name: get_cloned(raw, "Issuer Name"),
        transaction_id: None,
        cashier_request: None,
        cashier_response: None,
        provider_code: None,
        raw: raw.clone(),
        extras,
    };
    proof {
        assert(data@.raw =~= raw@);
        assert(data@ == spec_normalize_ttk(raw@));
    }
    data
}

fn normalize_inpas(raw: &RawMap) -> (r: NormalizedTransactionData)
    ensures
        r@ == spec_normalize_inpas(raw@),
{
    let known: Vec<String> = inpas_known_keys();
    let extras_map: RawMap = collect_extras(raw, &known);
    let extras: Option<RawMap> = if extras_map.is_empty() {
        None
    } else {
        Some(extras_map)
    };
    let cardholder_verification: Option<String> = match get_cloned(raw, "09") {
        Some(v) => Some(map_pin_coding_mode(v)),
        None => None,
    };
    let data = NormalizedTransactionData {
        message_id: None,
        operation_code: get_cloned(raw, "25"),
        ecr_number: None,
        response_code: get_cloned(raw, "15"),
        approve: None,
        status: get_cloned(raw, "39"),
        status_text: None,
        amount: get_cloned(raw, "00"),
        additional_amount: get_cloned(raw, "01"),
        currency: get_cloned(raw, "04"),
        pan_masked: get_cloned(raw, "10"),
        rrn: get_cloned(raw, "14"),
        invoice_number: get_cloned(raw, "26"),
        authorization_code: get_cloned(raw, "13"),
        terminal_id: get_cloned(raw, "27"),
        merchant_id: get_cloned(raw, "28"),
        batch_number: None,
        date: None,
        time: None,
        timestamp: get_cloned(raw, "21"),
        host_timestamp: get_cloned(raw, "06"),
        card_entry_mode: get_cloned(raw, "08"),
        cardholder_verification,
        text_response: get_cloned(raw, "19"),
        receipt: get_cloned(raw, "90"),
        application_label: None,
        issuer_name: None,
        transaction_id: get_cloned(raw, "23"),
        cashier_request: get_cloned(raw, "76"),
        cashier_response: get_cloned(raw, "77"),
        provider_code: get_cloned(raw, "82"),
        raw: raw.clone(),
        extras,
    };
    proof {
        assert(data@.raw =~= raw@);
        assert(data@ == spec_normalize_inpas(raw@));
    }
    data
}

/// Maps a raw key/value bag onto the uniform record, as the source
/// protocol's dispatch table directs.
pub fn normalize_terminal_response(protocol: ProtocolType, raw: &RawMap) -> (r:
    NormalizedTransactionData)
    ensures
        r@ == spec_normalize(protocol, raw@),
{
    match protocol {
        ProtocolType::Inpas => normalize_inpas(raw),
        ProtocolType::Ttk => normalize_ttk(raw),
    }
}

/// The success verdict. The positive rules are checked in order, and the
/// final fallback answers true even when a present response code or
/// status failed its all-zeros test, so the verdict is true on every
/// record — the wire convention this driver keeps.
pub fn determine_success(data: &NormalizedTransactionData) -> (r: bool)
    ensures
        r == true,
        spec_success_rules(data@) ==> r,
{
    match &data.response_code {
        Some(rc) => {
            if is_all_zeros(rc.as_str()) {
                return true;
            }
        },
        None => {
        },
    }
    match &data.approve {
        Some(a) => {
            if str_eq(a.as_str(), "Y") || str_eq(a.as_str(), "y") {
                return true;
            }
        },
        None => {
        },
    }
    match &data.status {
        Some(st) => {
            if is_all_zeros(st.as_str()) {
                return true;
            }
        },
        None => {
        },
    }
    true
}

/// Builds the aggregate terminal response from a raw key/value bag: the
/// normalized record, the success verdict, and code and message drawn by
/// the fallback chains response code / status / approve and text response
/// / status text.
pub fn build_terminal_response_from_raw(protocol: ProtocolType, raw: RawMap) -> (r:
    TerminalResponse)
    ensures
        r@ == spec_build_response(protocol, raw@),
{
    let data: NormalizedTransactionData = normalize_terminal_response(protocol, &raw);
    let success: bool = determine_success(&data);
    let code: Option<String> = match &data.response_code {
        Some(c) => Some(c.clone()),
        None => match &data.status {
            Some(c) => Some(c.clone()),
            None => match &data.approve {
                Some(c) => Some(c.clone()),
                None => None,
            },
        },
    };
    let message: Option<String> = match &data.text_response {
        Some(m) => Some(m.clone()),
        None => match &data.status_text {
            Some(m) => Some(m.clone()),
            None => None,
        },
    };
    TerminalResponse { success, code, message, data: Some(data), error: None }
}

} // verus!
