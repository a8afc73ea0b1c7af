//! The INPAS envelope: the XML request document posted to the
//! DualConnector relay, and the parser for its XML response. The transport
//! charset is Windows-1251 on both sides; the HTTP post itself lives
//! outside the library, which prepares the request bytes and consumes the
//! response bytes.

use vstd::prelude::*;

use crate::normalize::spec_build_response;
use crate::rawmap::RawMap;
use crate::strutil::find_char;
use crate::strutil::match_at;
use crate::strutil::spec_dec;
use crate::strutil::spec_find;
use crate::strutil::spec_match;
use crate::strutil::spec_zeros;
use crate::strutil::dec_string;
use crate::strutil::lemma_find;
use crate::strutil::to_chars;
use crate::textenc::cp1251_encode;
use crate::textenc::cp1251_bytes_of;
use crate::textenc::cp1251_str_of;
use crate::textenc::cp1251_decode;
use crate::textenc::utf8_lossy_decode;
use crate::textenc::utf8_lossy_str_of;
use crate::types::ConnectionConfig;
use crate::types::ConnectionType;
use crate::types::ProtocolType;
use crate::types::TerminalResponseView;
use crate::strutil::str_eq;
use crate::types::TerminalError;
use crate::types::TerminalErrorView;
use crate::types::TerminalResponse;

verus! {

/// One field of the INPAS request: a two-digit decimal id and a value.
#[derive(Debug, Clone)]
pub struct InpasField {
    pub id: String,
    pub value: String,
}

/// Mathematical image of `InpasField`.
pub struct InpasFieldView {
    pub id: Seq<char>,
    pub value: Seq<char>,
}

impl View for InpasField {
    type V = InpasFieldView;

    open spec fn view(&self) -> InpasFieldView {
        InpasFieldView { id: self.id@, value: self.value@ }
    }
}

impl DeepView for InpasField {
    type V = InpasFieldView;

    open spec fn deep_view(&self) -> InpasFieldView {
        self@
    }
}

/// The connection block appended after the fields of the request.
#[derive(Debug, Clone)]
pub struct EnvelopeOptions {
    pub timeout: Option<u32>,
    pub ipaddr: Option<String>,
    pub ncom: Option<String>,
    pub baudrate: Option<u32>,
}

/// Mathematical image of `EnvelopeOptions`.
pub struct EnvelopeOptionsView {
    pub timeout: Option<u32>,
    pub ipaddr: Option<Seq<char>>,
    pub ncom: Option<Seq<char>>,
    pub baudrate: Option<u32>,
}

impl View for EnvelopeOptions {
    type V = EnvelopeOptionsView;

    open spec fn view(&self) -> EnvelopeOptionsView {
        EnvelopeOptionsView {
            timeout: self.timeout,
            ipaddr: self.ipaddr.deep_view(),
            ncom: self.ncom.deep_view(),
            baudrate: self.baudrate,
        }
    }
}

/// The writer's escape of one character: the five XML entities, every
/// other character unchanged.
pub open spec fn spec_escape_char(c: char) -> Seq<char> {
    if c == '&' {
        "&amp;"@
    } else if c == '<' {
        "&lt;"@
    } else if c == '>' {
        "&gt;"@
    } else if c == '\'' {
        "&apos;"@
    } else if c == '"' {
        "&quot;"@
    } else {
        seq![c]
    }
}

/// The escape of a string from position `i` on.
pub open spec fn spec_escape_from(s: Seq<char>, i: int) -> Seq<char>
    decreases s.len() - i,
{
    if i < 0 || i >= s.len() {
        Seq::empty()
    } else {
        spec_escape_char(s[i]) + spec_escape_from(s, i + 1)
    }
}

/// The escape of a whole string.
pub open spec fn spec_escape(s: Seq<char>) -> Seq<char> {
    spec_escape_from(s, 0)
}

/// Escapes text for the XML writer.
fn escape_xml(s: &str) -> (r: String)
    ensures
        r@ == spec_escape(s@),
{
    let n: usize = s.unicode_len();
    let mut r: String = String::new();
    let mut i: usize = 0;
    while i < n
        invariant
            i <= n,
            n == s@.len(),
            spec_escape(s@) == r@ + spec_escape_from(s@, i as int),
        decreases n - i,
    {
        let c: char = s.get_char(i);
        let ghost before = r@;
        if c == '&' {
            r.append("&amp;");
        } else if c == '<' {
            r.append("&lt;");
        } else if c == '>' {
            r.append("&gt;");
        } else if c == '\'' {
            r.append("&apos;");
        } else if c == '"' {
            r.append("&quot;");
        } else {
            let one: &str = s.substring_char(i, i + 1);
            proof {
                assert(one@ =~= seq![s@[i as int]]);
            }
            r.append(one);
        }
        proof {
            assert(r@ =~= before + spec_escape_char(s@[i as int]));
        }
        i = i + 1;
        proof {
            assert(spec_escape(s@) =~= r@ + spec_escape_from(s@, i as int));
        }
    }
    proof {
        assert(spec_escape_from(s@, n as int) =~= Seq::<char>::empty());
        assert(spec_escape(s@) =~= r@);
    }
    r
}

/// One field element of the request document.
pub open spec fn spec_field_xml(f: InpasFieldView) -> Seq<char> {
    "<field id=\""@ + spec_escape(f.id) + "\">"@ + spec_escape(f.value) + "</field>"@
}

/// The field elements from position `i` on, concatenated.
pub open spec fn spec_fields_xml_from(fs: Seq<InpasFieldView>, i: int) -> Seq<char>
    decreases fs.len() - i,
{
    if i < 0 || i >= fs.len() {
        Seq::empty()
    } else {
        spec_field_xml(fs[i]) + spec_fields_xml_from(fs, i + 1)
    }
}

/// One paired element holding text.
pub open spec fn spec_text_elem(name: Seq<char>, text: Seq<char>) -> Seq<char> {
    seq!['<'] + name + seq!['>'] + text + seq!['<', '/'] + name + seq!['>']
}

/// The connection block: timeout, ipaddr, ncom and baudrate elements, each
/// present exactly when its option is.
pub open spec fn spec_meta_xml(meta: EnvelopeOptionsView) -> Seq<char> {
    (match meta.timeout {
        Some(t) => spec_text_elem("timeout"@, spec_dec(t as nat)),
        None => Seq::empty(),
    }) + (match meta.ipaddr {
        Some(ip) => spec_text_elem("ipaddr"@, spec_escape(ip)),
        None => Seq::empty(),
    }) + (match meta.ncom {
        Some(nc) => spec_text_elem("ncom"@, spec_escape(nc)),
        None => Seq::empty(),
    }) + (match meta.baudrate {
        Some(b) => spec_text_elem("baudrate"@, spec_dec(b as nat)),
        None => Seq::empty(),
    })
}

/// The whole request document: declaration, then `<request>` holding the
/// fields in order and the connection block.
pub open spec fn spec_inpas_xml(fs: Seq<InpasFieldView>, meta: EnvelopeOptionsView) -> Seq<char> {
    "<?xml version=\"1.0\" encoding=\"windows-1251\"?>"@ + "<request>"@ + spec_fields_xml_from(
        fs,
        0,
    ) + spec_meta_xml(meta) + "</request>"@
}

fn append_text_elem(out: &mut String, open_tag: &str, text: &str, close_tag: &str, name: &str)
    requires
        open_tag@ == seq!['<'] + name@ + seq!['>'],
        close_tag@ == seq!['<', '/'] + name@ + seq!['>'],
    ensures
        final(out)@ == old(out)@ + spec_text_elem(name@, text@),
{
    out.append(open_tag);
    out.append(text);
    out.append(close_tag);
    proof {
        assert(final(out)@ =~= old(out)@ + spec_text_elem(name@, text@));
    }
}

/// Builds the request document for the given fields and connection block.
pub fn build_inpas_xml(fields: &Vec<InpasField>, meta: &EnvelopeOptions) -> (r: String)
    ensures
        r@ == spec_inpas_xml(fields.deep_view(), meta@),
{
    let mut out: String = "<?xml version=\"1.0\" encoding=\"windows-1251\"?>".to_owned();
    out.append("<request>");
    let ghost fs = fields.deep_view();
    let ghost head = out@;
    let mut i: usize = 0;
    while i < fields.len()
        invariant
            i <= fields@.len(),
            fs == fields.deep_view(),
            fs.len() == fields@.len(),
            head + spec_fields_xml_from(fs, 0) =~= out@ + spec_fields_xml_from(fs, i as int),
        decreases fields@.len() - i,
    {
        let f: &InpasField = &fields[i];
        proof {
            assert(fs[i as int] == f@);
        }
        let ghost before = out@;
        out.append("<field id=\"");
        let eid: String = escape_xml(f.id.as_str());
        out.append(eid.as_str());
        out.append("\">");
        let ev: String = escape_xml(f.value.as_str());
        out.append(ev.as_str());
        out.append("</field>");
        i = i + 1;
        proof {
            assert(out@ =~= before + spec_field_xml(fs[i as int - 1]));
            assert(spec_fields_xml_from(fs, i as int - 1) == spec_field_xml(fs[i as int - 1])
                + spec_fields_xml_from(fs, i as int));
            assert(head + spec_fields_xml_from(fs, 0) =~= out@ + spec_fields_xml_from(
                fs,
                i as int,
            ));
        }
    }
    proof {
        assert(spec_fields_xml_from(fs, fields@.len() as int) =~= Seq::<char>::empty());
        assert(out@ =~= head + spec_fields_xml_from(fs, 0));
    }
    let ghost after_fields = out@;
    match &meta.timeout {
        Some(t) => {
            let text: String = dec_string(*t as u64);
            proof {
                reveal_strlit("<timeout>");
                reveal_strlit("</timeout>");
                reveal_strlit("timeout");
                assert("<timeout>"@ =~= seq!['<'] + "timeout"@ + seq!['>']);
                assert("</timeout>"@ =~= seq!['<', '/'] + "timeout"@ + seq!['>']);
            }
            append_text_elem(&mut out, "<timeout>", text.as_str(), "</timeout>", "timeout");
        },
        None => {
        },
    }
    match &meta.ipaddr {
        Some(ip) => {
            let text: String = escape_xml(ip.as_str());
            proof {
                reveal_strlit("<ipaddr>");
                reveal_strlit("</ipaddr>");
                reveal_strlit("ipaddr");
                assert("<ipaddr>"@ =~= seq!['<'] + "ipaddr"@ + seq!['>']);
                assert("</ipaddr>"@ =~= seq!['<', '/'] + "ipaddr"@ + seq!['>']);
            }
            append_text_elem(&mut out, "<ipaddr>", text.as_str(), "</ipaddr>", "ipaddr");
        },
        None => {
        },
    }
    match &meta.ncom {
        Some(nc) => {
            let text: String = escape_xml(nc.as_str());
            proof {
                reveal_strlit("<ncom>");
                reveal_strlit("</ncom>");
                reveal_strlit("ncom");
                assert("<ncom>"@ =~= seq!['<'] + "ncom"@ + seq!['>']);
                assert("</ncom>"@ =~= seq!['<', '/'] + "ncom"@ + seq!['>']);
            }
            append_text_elem(&mut out, "<ncom>", text.as_str(), "</ncom>", "ncom");
        },
        None => {
        },
    }
    match &meta.baudrate {
        Some(b) => {
            let text: String = dec_string(*b as u64);
            proof {
                reveal_strlit("<baudrate>");
                reveal_strlit("</baudrate>");
                reveal_strlit("baudrate");
                assert("<baudrate>"@ =~= seq!['<'] + "baudrate"@ + seq!['>']);
                assert("</baudrate>"@ =~= seq!['<', '/'] + "baudrate"@ + seq!['>']);
            }
            append_text_elem(&mut out, "<baudrate>", text.as_str(), "</baudrate>", "baudrate");
        },
        None => {
        },
    }
    proof {
        assert(out@ =~= after_fields + spec_meta_xml(meta@));
    }
    out.append("</request>");
    proof {
        assert(out@ =~= spec_inpas_xml(fs, meta@));
    }
    out
}

/// XML whitespace.
pub open spec fn sp_ws(c: char) -> bool {
    c == ' ' || c == '\t' || c == '\r' || c == '\n'
}

/// What may follow an element name inside its tag.
pub open spec fn sp_delim(c: char) -> bool {
    sp_ws(c) || c == '>' || c == '/'
}

/// The first non-whitespace position in `[a, b)`, or `b`.
pub open spec fn sp_trim_lo(s: Seq<char>, a: int, b: int) -> int
    decreases b - a,
{
    if a >= b {
        b
    } else if sp_ws(s[a]) {
        sp_trim_lo(s, a + 1, b)
    } else {
        a
    }
}

/// The position after the last non-whitespace character in `[a, b)`, or `a`.
pub open spec fn sp_trim_hi(s: Seq<char>, a: int, b: int) -> int
    decreases b - a,
{
    if b <= a {
        a
    } else if sp_ws(s[b - 1]) {
        sp_trim_hi(s, a, b - 1)
    } else {
        b
    }
}

/// The range `[a, b)` of `s` with surrounding whitespace removed.
pub open spec fn sp_trim_range(s: Seq<char>, a: int, b: int) -> Seq<char> {
    let lo = sp_trim_lo(s, a, b);
    let hi = sp_trim_hi(s, lo, b);
    s.subrange(lo, hi)
}

/// A field id left-padded with '0' to at least two characters.
pub open spec fn spec_zero_pad2(s: Seq<char>) -> Seq<char> {
    if s.len() >= 2 {
        s
    } else {
        spec_zeros((2 - s.len()) as nat) + s
    }
}

/// What the scanner of the response has gathered: the fields under their
/// zero-padded ids, and the error code and description elements.
pub struct InpasScanView {
    pub fields: Map<Seq<char>, Seq<char>>,
    pub error_code: Option<Seq<char>>,
    pub error_description: Option<Seq<char>>,
}

/// The three element kinds the scanner captures.
#[derive(Debug, Clone, Copy, PartialEq, Eq, Structural)]
pub enum CapturedElem {
    Field,
    ErrorCode,
    ErrorDesc,
}

/// The scanner's position inside the document.
pub enum SpecScanState {
    /// Between elements.
    Out,
    /// Inside a tag that is not captured, up to its '>'.
    SkipTag,
    /// Consuming the rest of a captured element's name.
    SkipName(CapturedElem),
    /// Between attributes; carries the id attribute seen so far.
    AttrReady(CapturedElem, Option<Seq<char>>),
    /// Inside an attribute name started at the carried position.
    AttrName(CapturedElem, Option<Seq<char>>, int),
    /// After an attribute name, before its '='.
    AttrAfterName(CapturedElem, Option<Seq<char>>, Seq<char>),
    /// After '=', before the opening quote.
    AttrAfterEq(CapturedElem, Option<Seq<char>>, Seq<char>),
    /// Inside a quoted attribute value started at the carried position.
    AttrValue(CapturedElem, Option<Seq<char>>, Seq<char>, int, char),
    /// After '/' inside a captured start tag: an empty element, ignored.
    AttrSlash(CapturedElem),
    /// Inside a captured element's content: run start, text so far, last
    /// non-empty run.
    Content(CapturedElem, Option<Seq<char>>, int, Seq<char>, Option<Seq<char>>),
    /// Inside a tag nested in captured content.
    ContentTag(CapturedElem, Option<Seq<char>>, Seq<char>, Option<Seq<char>>),
}

/// Whether a close tag ending the captured element starts at `i`. Either
/// spelling closes the error description, as either spelling opens it.
pub open spec fn sp_is_close(s: Seq<char>, i: int, e: CapturedElem) -> bool {
    match e {
        CapturedElem::Field => spec_match(s, i, "</field>"@),
        CapturedElem::ErrorCode => spec_match(s, i, "</errorcode>"@),
        CapturedElem::ErrorDesc => spec_match(s, i, "</errordescription>"@) || spec_match(
            s,
            i,
            "</errorDescription>"@,
        ),
    }
}

/// Whether a captured start tag begins at `i`, and which.
pub open spec fn sp_captured_at(s: Seq<char>, i: int) -> Option<CapturedElem> {
    if spec_match(s, i, "<field"@) && i + 6 < s.len() && sp_delim(s[i + 6]) {
        Some(CapturedElem::Field)
    } else if spec_match(s, i, "<errorcode"@) && i + 10 < s.len() && sp_delim(s[i + 10]) {
        Some(CapturedElem::ErrorCode)
    } else if (spec_match(s, i, "<errordescription"@) || spec_match(s, i, "<errorDescription"@))
        && i + 17 < s.len() && sp_delim(s[i + 17]) {
        Some(CapturedElem::ErrorDesc)
    } else {
        None
    }
}

/// Applies a finished captured element to the result: a field with an id
/// is inserted under the zero-padded id with all its text; the error
/// elements keep their last non-empty text run, when one exists.
pub open spec fn sp_apply(
    e: CapturedElem,
    id: Option<Seq<char>>,
    all: Seq<char>,
    last: Option<Seq<char>>,
    res: InpasScanView,
) -> InpasScanView {
    match e {
        CapturedElem::Field => match id {
            Some(idv) => InpasScanView {
                fields: res.fields.insert(spec_zero_pad2(idv), all),
                error_code: res.error_code,
                error_description: res.error_description,
            },
            None => res,
        },
        CapturedElem::ErrorCode => match last {
            Some(r) => InpasScanView {
                fields: res.fields,
                error_code: Some(r),
                error_description: res.error_description,
            },
            None => res,
        },
        CapturedElem::ErrorDesc => match last {
            Some(r) => InpasScanView {
                fields: res.fields,
                error_code: res.error_code,
                error_description: Some(r),
            },
            None => res,
        },
    }
}

/// The scanner, one character at a time from position `i`. `None` is a
/// parse failure: an unterminated tag or captured element, or a malformed
/// attribute.
pub open spec fn sp_scan(s: Seq<char>, i: int, st: SpecScanState, res: InpasScanView) -> Option<
    InpasScanView,
>
    decreases s.len() - i,
{
    if i < 0 {
        None
    } else if i >= s.len() {
        match st {
            SpecScanState::Out => Some(res),
            _ => None,
        }
    } else {
        let c = s[i];
        match st {
            SpecScanState::Out => {
                if c == '<' {
                    match sp_captured_at(s, i) {
                        Some(e) => sp_scan(s, i + 1, SpecScanState::SkipName(e), res),
                        None => sp_scan(s, i + 1, SpecScanState::SkipTag, res),
                    }
                } else {
                    sp_scan(s, i + 1, SpecScanState::Out, res)
                }
            },
            SpecScanState::SkipTag => {
                if c == '>' {
                    sp_scan(s, i + 1, SpecScanState::Out, res)
                } else {
                    sp_scan(s, i + 1, SpecScanState::SkipTag, res)
                }
            },
            SpecScanState::SkipName(e) => {
                if c == '>' {
                    sp_scan(
                        s,
                        i + 1,
                        SpecScanState::Content(e, None, i + 1, Seq::empty(), None),
                        res,
                    )
                } else if c == '/' {
                    sp_scan(s, i + 1, SpecScanState::AttrSlash(e), res)
                } else if sp_ws(c) {
                    sp_scan(s, i + 1, SpecScanState::AttrReady(e, None), res)
                } else {
                    sp_scan(s, i + 1, SpecScanState::SkipName(e), res)
                }
            },
            SpecScanState::AttrReady(e, id) => {
                if sp_ws(c) {
                    sp_scan(s, i + 1, SpecScanState::AttrReady(e, id), res)
                } else if c == '>' {
                    sp_scan(
                        s,
                        i + 1,
                        SpecScanState::Content(e, id, i + 1, Seq::empty(), None),
                        res,
                    )
                } else if c == '/' {
                    sp_scan(s, i + 1, SpecScanState::AttrSlash(e), res)
                } else if c == '=' || c == '"' || c == '\'' {
                    None
                } else {
                    sp_scan(s, i + 1, SpecScanState::AttrName(e, id, i), res)
                }
            },
            SpecScanState::AttrName(e, id, ns) => {
                if c == '=' {
                    sp_scan(
                        s,
                        i + 1,
                        SpecScanState::AttrAfterEq(e, id, s.subrange(ns, i)),
                        res,
                    )
                } else if sp_ws(c) {
                    sp_scan(
                        s,
                        i + 1,
                        SpecScanState::AttrAfterName(e, id, s.subrange(ns, i)),
                        res,
                    )
                } else if c == '>' || c == '/' || c == '"' || c == '\'' {
                    None
                } else {
                    sp_scan(s, i + 1, SpecScanState::AttrName(e, id, ns), res)
                }
            },
            SpecScanState::AttrAfterName(e, id, nm) => {
                if sp_ws(c) {
                    sp_scan(s, i + 1, SpecScanState::AttrAfterName(e, id, nm), res)
                } else if c == '=' {
                    sp_scan(s, i + 1, SpecScanState::AttrAfterEq(e, id, nm), res)
                } else {
                    None
                }
            },
            SpecScanState::AttrAfterEq(e, id, nm) => {
                if sp_ws(c) {
                    sp_scan(s, i + 1, SpecScanState::AttrAfterEq(e, id, nm), res)
                } else if c == '"' || c == '\'' {
                    sp_scan(s, i + 1, SpecScanState::AttrValue(e, id, nm, i + 1, c), res)
                } else {
                    None
                }
            },
            SpecScanState::AttrValue(e, id, nm, vs, q) => {
                if c == q {
                    let id2 = if nm == "id"@ {
                        Some(s.subrange(vs, i))
                    } else {
                        id
                    };
                    sp_scan(s, i + 1, SpecScanState::AttrReady(e, id2), res)
                } else {
                    sp_scan(s, i + 1, SpecScanState::AttrValue(e, id, nm, vs, q), res)
                }
            },
            SpecScanState::AttrSlash(e) => {
                if c == '>' {
                    sp_scan(s, i + 1, SpecScanState::Out, res)
                } else {
                    None
                }
            },
            SpecScanState::Content(e, id, rs, all, last) => {
                if c == '<' {
                    let run = sp_trim_range(s, rs, i);
                    let all2 = if run.len() > 0 {
                        all + run
                    } else {
                        all
                    };
                    let last2 = if run.len() > 0 {
                        Some(run)
                    } else {
                        last
                    };
                    if sp_is_close(s, i, e) {
                        sp_scan(s, i + 1, SpecScanState::SkipTag, sp_apply(e, id, all2, last2, res))
                    } else {
                        sp_scan(s, i + 1, SpecScanState::ContentTag(e, id, all2, last2), res)
                    }
                } else {
                    sp_scan(s, i + 1, SpecScanState::Content(e, id, rs, all, last), res)
                }
            },
            SpecScanState::ContentTag(e, id, all, last) => {
                if c == '>' {
                    sp_scan(s, i + 1, SpecScanState::Content(e, id, i + 1, all, last), res)
                } else {
                    sp_scan(s, i + 1, SpecScanState::ContentTag(e, id, all, last), res)
                }
            },
        }
    }
}

/// A character neither escaped by the writer nor structural to the
/// scanner.
pub open spec fn spec_plain_char(c: char) -> bool {
    c != '&' && c != '<' && c != '>' && c != '\'' && c != '"'
}

/// All characters plain.
pub open spec fn spec_plain(s: Seq<char>) -> bool {
    forall|i: int| 0 <= i < s.len() ==> spec_plain_char(s[i])
}

/// A field the round-trip law covers: id and value free of the escaped
/// characters, and the value free of edge whitespace, which the reader
/// trims.
pub open spec fn spec_roundtrip_field(f: InpasFieldView) -> bool {
    &&& spec_plain(f.id)
    &&& spec_plain(f.value)
    &&& (f.value.len() > 0 ==> !sp_ws(f.value[0]) && !sp_ws(f.value[f.value.len() - 1]))
}

/// The map the fields from position `k` on denote, inserted in order over
/// `acc`: each value under its zero-padded id, a later field overwriting
/// an earlier one that shares it.
pub open spec fn spec_fields_map_from(
    fs: Seq<InpasFieldView>,
    k: int,
    acc: Map<Seq<char>, Seq<char>>,
) -> Map<Seq<char>, Seq<char>>
    decreases fs.len() - k,
{
    if k < 0 || k >= fs.len() {
        acc
    } else {
        spec_fields_map_from(fs, k + 1, acc.insert(spec_zero_pad2(fs[k].id), fs[k].value))
    }
}

proof fn lemma_not_match(s: Seq<char>, i: int, p: Seq<char>, k: int)
    requires
        0 <= k < p.len(),
        0 <= i,
        i + p.len() <= s.len() ==> s[i + k] != p[k],
    ensures
        !spec_match(s, i, p),
{
    if spec_match(s, i, p) {
        assert(s.subrange(i, i + p.len() as int)[k] == p[k]);
    }
}

proof fn lemma_escape_plain(s: Seq<char>, i: int)
    requires
        0 <= i <= s.len(),
        spec_plain(s),
    ensures
        spec_escape_from(s, i) == s.subrange(i, s.len() as int),
    decreases s.len() - i,
{
    if i < s.len() {
        lemma_escape_plain(s, i + 1);
        assert(spec_escape_char(s[i]) == seq![s[i]]);
        assert(seq![s[i]] + s.subrange(i + 1, s.len() as int) =~= s.subrange(i, s.len() as int));
    } else {
        assert(s.subrange(i, s.len() as int) =~= Seq::<char>::empty());
    }
}

proof fn lemma_trim_plain_range(s: Seq<char>, a: int, b: int)
    requires
        0 <= a <= b <= s.len(),
        a < b ==> !sp_ws(s[a]) && !sp_ws(s[b - 1]),
    ensures
        sp_trim_range(s, a, b) == s.subrange(a, b),
{
    if a < b {
        assert(sp_trim_lo(s, a, b) == a);
        assert(sp_trim_hi(s, a, b) == b);
    } else {
        assert(sp_trim_lo(s, a, b) == b);
        assert(sp_trim_hi(s, b, b) == b);
        assert(s.subrange(b, b) =~= s.subrange(a, b));
    }
}

proof fn lemma_scan_out_run(s: Seq<char>, i: int, j: int, res: InpasScanView)
    requires
        0 <= i <= j <= s.len(),
        forall|k: int| i <= k < j ==> s[k] != '<',
    ensures
        sp_scan(s, i, SpecScanState::Out, res) == sp_scan(s, j, SpecScanState::Out, res),
    decreases j - i,
{
    if i < j {
        lemma_scan_out_run(s, i + 1, j, res);
    }
}

proof fn lemma_scan_skip_tag(s: Seq<char>, i: int, j: int, res: InpasScanView)
    requires
        0 <= i <= j < s.len(),
        forall|k: int| i <= k < j ==> s[k] != '>',
        s[j] == '>',
    ensures
        sp_scan(s, i, SpecScanState::SkipTag, res) == sp_scan(s, j + 1, SpecScanState::Out, res),
    decreases j - i,
{
    if i < j {
        lemma_scan_skip_tag(s, i + 1, j, res);
    }
}

proof fn lemma_scan_skip_name_run(
    s: Seq<char>,
    i: int,
    j: int,
    e: CapturedElem,
    res: InpasScanView,
)
    requires
        0 <= i <= j <= s.len(),
        forall|k: int| i <= k < j ==> !sp_delim(s[k]),
    ensures
        sp_scan(s, i, SpecScanState::SkipName(e), res) == sp_scan(
            s,
            j,
            SpecScanState::SkipName(e),
            res,
        ),
    decreases j - i,
{
    if i < j {
        lemma_scan_skip_name_run(s, i + 1, j, e, res);
    }
}

proof fn lemma_scan_attr_value_run(
    s: Seq<char>,
    i: int,
    j: int,
    e: CapturedElem,
    id: Option<Seq<char>>,
    nm: Seq<char>,
    vs: int,
    q: char,
    res: InpasScanView,
)
    requires
        0 <= i <= j <= s.len(),
        forall|k: int| i <= k < j ==> s[k] != q,
    ensures
        sp_scan(s, i, SpecScanState::AttrValue(e, id, nm, vs, q), res) == sp_scan(
            s,
            j,
            SpecScanState::AttrValue(e, id, nm, vs, q),
            res,
        ),
    decreases j - i,
{
    if i < j {
        lemma_scan_attr_value_run(s, i + 1, j, e, id, nm, vs, q, res);
    }
}

proof fn lemma_scan_content_run(
    s: Seq<char>,
    i: int,
    j: int,
    e: CapturedElem,
    id: Option<Seq<char>>,
    rs: int,
    all: Seq<char>,
    last: Option<Seq<char>>,
    res: InpasScanView,
)
    requires
        0 <= i <= j <= s.len(),
        forall|k: int| i <= k < j ==> s[k] != '<',
    ensures
        sp_scan(s, i, SpecScanState::Content(e, id, rs, all, last), res) == sp_scan(
            s,
            j,
            SpecScanState::Content(e, id, rs, all, last),
            res,
        ),
    decreases j - i,
{
    if i < j {
        lemma_scan_content_run(s, i + 1, j, e, id, rs, all, last, res);
    }
}

/// The scanner crosses one built field element from outside to outside,
/// inserting its value under its zero-padded id.
#[verifier::rlimit(60)]
proof fn lemma_scan_field_elem(s: Seq<char>, i: int, f: InpasFieldView, res: InpasScanView)
    requires
        spec_roundtrip_field(f),
        0 <= i,
        i + spec_field_xml(f).len() <= s.len(),
        s.subrange(i, i + spec_field_xml(f).len() as int) == spec_field_xml(f),
    ensures
        sp_scan(s, i, SpecScanState::Out, res) == sp_scan(
            s,
            i + spec_field_xml(f).len() as int,
            SpecScanState::Out,
            InpasScanView {
                fields: res.fields.insert(spec_zero_pad2(f.id), f.value),
                error_code: res.error_code,
                error_description: res.error_description,
            },
        ),
{
    reveal_strlit("<field id=\"");
    reveal_strlit("\">");
    reveal_strlit("</field>");
    reveal_strlit("<field");
    reveal_strlit("id");
    reveal_strlit("<errorcode");
    reveal_strlit("<errordescription");
    reveal_strlit("<errorDescription");
    lemma_escape_plain(f.id, 0);
    lemma_escape_plain(f.value, 0);
    assert(spec_escape(f.id) == f.id) by {
        assert(f.id.subrange(0, f.id.len() as int) =~= f.id);
    }
    assert(spec_escape(f.value) == f.value) by {
        assert(f.value.subrange(0, f.value.len() as int) =~= f.value);
    }
    let fx = spec_field_xml(f);
    let idn = f.id.len() as int;
    let vn = f.value.len() as int;
    assert(fx.len() == 21 + idn + vn);
    assert forall|k: int| 0 <= k < fx.len() implies #[trigger] s[i + k] == fx[k] by {
        assert(s.subrange(i, i + fx.len() as int)[k] == fx[k]);
    }
    let id_start = i + 11;
    let id_end = id_start + idn;
    let val_start = id_end + 2;
    let val_end = val_start + vn;
    let end = val_end + 8;
    // The literal pieces of the element, char by char.
    assert forall|k: int| 0 <= k < 11 implies #[trigger] s[i + k] == "<field id=\""@[k] by {
        assert(fx[k] == "<field id=\""@[k]);
    }
    assert forall|k: int| 0 <= k < idn implies #[trigger] s[id_start + k] == f.id[k] by {
        assert(fx[11 + k] == f.id[k]);
    }
    assert forall|k: int| 0 <= k < 2 implies #[trigger] s[id_end + k] == "\">"@[k] by {
        assert(fx[11 + idn + k] == "\">"@[k]);
    }
    assert forall|k: int| 0 <= k < vn implies #[trigger] s[val_start + k] == f.value[k] by {
        assert(fx[13 + idn + k] == f.value[k]);
    }
    assert forall|k: int| 0 <= k < 8 implies #[trigger] s[val_end + k] == "</field>"@[k] by {
        assert(fx[13 + idn + vn + k] == "</field>"@[k]);
    }
    // The opening tag is a captured field start.
    assert(s[i] == '<') by {
        assert(s[i + 0] == "<field id=\""@[0]);
    }
    assert(spec_match(s, i, "<field"@)) by {
        assert forall|k: int| 0 <= k < 6 implies #[trigger] s.subrange(i, i + 6)[k]
            == "<field"@[k] by {
            assert(s[i + k] == "<field id=\""@[k]);
        }
        assert(s.subrange(i, i + 6) =~= "<field"@);
    }
    assert(i + 6 < s.len());
    assert(s[i + 6] == "<field id=\""@[6]);
    assert(sp_delim(s[i + 6]));
    assert(sp_captured_at(s, i) == Some(CapturedElem::Field));
    assert(sp_scan(s, i, SpecScanState::Out, res) == sp_scan(
        s,
        i + 1,
        SpecScanState::SkipName(CapturedElem::Field),
        res,
    ));
    // The rest of the name.
    assert forall|k: int| i + 1 <= k < i + 6 implies !sp_delim(s[k]) by {
        assert(s[k] == s[i + (k - i)]);
        assert(s[i + (k - i)] == "<field id=\""@[k - i]);
    }
    lemma_scan_skip_name_run(s, i + 1, i + 6, CapturedElem::Field, res);
    // The space after the name.
    assert(sp_ws(s[i + 6]));
    assert(sp_scan(s, i + 6, SpecScanState::SkipName(CapturedElem::Field), res) == sp_scan(
        s,
        i + 7,
        SpecScanState::AttrReady(CapturedElem::Field, None),
        res,
    ));
    // The attribute name "id".
    assert(s[i + 7] == "<field id=\""@[7]);
    assert(s[i + 7] == 'i');
    assert(sp_scan(s, i + 7, SpecScanState::AttrReady(CapturedElem::Field, None), res) == sp_scan(
        s,
        i + 8,
        SpecScanState::AttrName(CapturedElem::Field, None, i + 7),
        res,
    ));
    assert(s[i + 8] == "<field id=\""@[8]);
    assert(s[i + 8] == 'd');
    assert(sp_scan(s, i + 8, SpecScanState::AttrName(CapturedElem::Field, None, i + 7), res)
        == sp_scan(s, i + 9, SpecScanState::AttrName(CapturedElem::Field, None, i + 7), res));
    assert(s[i + 9] == "<field id=\""@[9]);
    assert(s[i + 9] == '=');
    let nm = s.subrange(i + 7, i + 9);
    assert(nm =~= "id"@);
    assert(sp_scan(s, i + 9, SpecScanState::AttrName(CapturedElem::Field, None, i + 7), res)
        == sp_scan(s, i + 10, SpecScanState::AttrAfterEq(CapturedElem::Field, None, nm), res));
    // The quoted id value.
    assert(s[i + 10] == "<field id=\""@[10]);
    assert(s[i + 10] == '"');
    assert(sp_scan(s, i + 10, SpecScanState::AttrAfterEq(CapturedElem::Field, None, nm), res)
        == sp_scan(
        s,
        i + 11,
        SpecScanState::AttrValue(CapturedElem::Field, None, nm, i + 11, '"'),
        res,
    ));
    assert forall|k: int| id_start <= k < id_end implies s[k] != '"' by {
        assert(s[k] == s[id_start + (k - id_start)]);
        assert(s[id_start + (k - id_start)] == f.id[k - id_start]);
        assert(spec_plain_char(f.id[k - id_start]));
    }
    lemma_scan_attr_value_run(s, id_start, id_end, CapturedElem::Field, None, nm, id_start, '"', res);
    let idv = s.subrange(id_start, id_end);
    assert forall|k: int| 0 <= k < idn implies #[trigger] idv[k] == f.id[k] by {
        assert(s[id_start + k] == f.id[k]);
    }
    assert(idv =~= f.id);
    assert(s[id_end] == s[id_end + 0]);
    assert(s[id_end + 0] == "\">"@[0]);
    assert(s[id_end] == '"');
    assert(sp_scan(
        s,
        id_end,
        SpecScanState::AttrValue(CapturedElem::Field, None, nm, id_start, '"'),
        res,
    ) == sp_scan(
        s,
        id_end + 1,
        SpecScanState::AttrReady(CapturedElem::Field, Some(idv)),
        res,
    ));
    // The '>' opens the content.
    assert(s[id_end + 1] == "\">"@[1]);
    assert(s[id_end + 1] == '>');
    assert(!sp_ws(s[id_end + 1]));
    assert(sp_scan(s, id_end + 1, SpecScanState::AttrReady(CapturedElem::Field, Some(idv)), res)
        == sp_scan(
        s,
        val_start,
        SpecScanState::Content(CapturedElem::Field, Some(idv), val_start, Seq::empty(), None),
        res,
    ));
    // The text run.
    assert forall|k: int| val_start <= k < val_end implies s[k] != '<' by {
        assert(s[k] == s[val_start + (k - val_start)]);
        assert(s[val_start + (k - val_start)] == f.value[k - val_start]);
        assert(spec_plain_char(f.value[k - val_start]));
    }
    lemma_scan_content_run(
        s,
        val_start,
        val_end,
        CapturedElem::Field,
        Some(idv),
        val_start,
        Seq::empty(),
        None,
        res,
    );
    // The close tag ends the element and applies the field.
    assert(s[val_end] == s[val_end + 0]);
    assert(s[val_end + 0] == "</field>"@[0]);
    assert(s[val_end] == '<');
    assert forall|k: int| 0 <= k < vn implies #[trigger] s.subrange(val_start, val_end)[k]
        == f.value[k] by {
        assert(s[val_start + k] == f.value[k]);
    }
    assert(s.subrange(val_start, val_end) =~= f.value);
    lemma_trim_plain_range(s, val_start, val_end);
    let run = sp_trim_range(s, val_start, val_end);
    assert(run == f.value);
    let all2 = if run.len() > 0 {
        Seq::<char>::empty() + run
    } else {
        Seq::<char>::empty()
    };
    assert(all2 =~= f.value);
    assert(spec_match(s, val_end, "</field>"@)) by {
        assert forall|k: int| 0 <= k < 8 implies #[trigger] s.subrange(val_end, val_end + 8)[k]
            == "</field>"@[k] by {
            assert(s[val_end + k] == "</field>"@[k]);
        }
        assert(s.subrange(val_end, val_end + 8) =~= "</field>"@);
    }
    assert(sp_is_close(s, val_end, CapturedElem::Field));
    let res2 = InpasScanView {
        fields: res.fields.insert(spec_zero_pad2(f.id), f.value),
        error_code: res.error_code,
        error_description: res.error_description,
    };
    assert(sp_apply(
        CapturedElem::Field,
        Some(idv),
        all2,
        if run.len() > 0 {
            Some(run)
        } else {
            None
        },
        res,
    ) == res2);
    assert(sp_scan(
        s,
        val_end,
        SpecScanState::Content(CapturedElem::Field, Some(idv), val_start, Seq::empty(), None),
        res,
    ) == sp_scan(s, val_end + 1, SpecScanState::SkipTag, res2));
    // The rest of the close tag.
    assert forall|k: int| val_end + 1 <= k < end - 1 implies s[k] != '>' by {
        assert(s[k] == s[val_end + (k - val_end)]);
        assert(s[val_end + (k - val_end)] == "</field>"@[k - val_end]);
    }
    assert(s[end - 1] == s[val_end + 7]);
    assert(s[val_end + 7] == "</field>"@[7]);
    assert(s[end - 1] == '>');
    lemma_scan_skip_tag(s, val_end + 1, end - 1, res2);
}

/// The scanner crosses the built field elements from position `k` on,
/// folding each into the map.
proof fn lemma_scan_fields(
    s: Seq<char>,
    i: int,
    fs: Seq<InpasFieldView>,
    k: int,
    res: InpasScanView,
)
    requires
        0 <= k <= fs.len(),
        forall|j: int| 0 <= j < fs.len() ==> spec_roundtrip_field(#[trigger] fs[j]),
        0 <= i,
        i + spec_fields_xml_from(fs, k).len() <= s.len(),
        s.subrange(i, i + spec_fields_xml_from(fs, k).len() as int) == spec_fields_xml_from(fs, k),
    ensures
        sp_scan(s, i, SpecScanState::Out, res) == sp_scan(
            s,
            i + spec_fields_xml_from(fs, k).len() as int,
            SpecScanState::Out,
            InpasScanView {
                fields: spec_fields_map_from(fs, k, res.fields),
                error_code: res.error_code,
                error_description: res.error_description,
            },
        ),
    decreases fs.len() - k,
{
    if k == fs.len() {
        assert(spec_fields_xml_from(fs, k) =~= Seq::<char>::empty());
        assert(res == (InpasScanView {
            fields: spec_fields_map_from(fs, k, res.fields),
            error_code: res.error_code,
            error_description: res.error_description,
        }));
    } else {
        let fx = spec_field_xml(fs[k]);
        let rest = spec_fields_xml_from(fs, k + 1);
        assert(spec_fields_xml_from(fs, k) == fx + rest);
        assert forall|j: int| 0 <= j < fx.len() + rest.len() implies s[i + j] == (fx + rest)[j] by {
            assert(s.subrange(i, i + spec_fields_xml_from(fs, k).len() as int)[j] == (fx + rest)[j]);
        }
        assert forall|j: int| 0 <= j < fx.len() implies #[trigger] s.subrange(
            i,
            i + fx.len() as int,
        )[j] == fx[j] by {
            assert(s[i + j] == (fx + rest)[j]);
        }
        assert(s.subrange(i, i + fx.len() as int) =~= fx);
        lemma_scan_field_elem(s, i, fs[k], res);
        let res2 = InpasScanView {
            fields: res.fields.insert(spec_zero_pad2(fs[k].id), fs[k].value),
            error_code: res.error_code,
            error_description: res.error_description,
        };
        assert forall|j: int| 0 <= j < rest.len() implies #[trigger] s.subrange(
            i + fx.len(),
            i + fx.len() + rest.len(),
        )[j] == rest[j] by {
            assert(s[i + (fx.len() + j)] == (fx + rest)[fx.len() + j]);
        }
        assert(s.subrange(i + fx.len(), i + fx.len() + rest.len()) =~= rest);
        lemma_scan_fields(s, i + fx.len(), fs, k + 1, res2);
    }
}

/// Round trip of the envelope: scanning a request document built from
/// round-trippable fields and an empty connection block recovers exactly
/// those fields, each value under its zero-padded id in order, and no
/// error elements.
pub proof fn lemma_inpas_roundtrip(fs: Seq<InpasFieldView>)
    requires
        forall|j: int| 0 <= j < fs.len() ==> spec_roundtrip_field(#[trigger] fs[j]),
    ensures
        spec_scan_inpas(
            spec_inpas_xml(
                fs,
                EnvelopeOptionsView { timeout: None, ipaddr: None, ncom: None, baudrate: None },
            ),
        ) == Some(
            InpasScanView {
                fields: spec_fields_map_from(fs, 0, Map::empty()),
                error_code: None,
                error_description: None,
            },
        ),
{
    reveal_strlit("<?xml version=\"1.0\" encoding=\"windows-1251\"?>");
    reveal_strlit("<request>");
    reveal_strlit("</request>");
    reveal_strlit("<field");
    reveal_strlit("<errorcode");
    reveal_strlit("<errordescription");
    reveal_strlit("<errorDescription");
    let meta = EnvelopeOptionsView { timeout: None, ipaddr: None, ncom: None, baudrate: None };
    let decl = "<?xml version=\"1.0\" encoding=\"windows-1251\"?>"@;
    let open_req = "<request>"@;
    let close_req = "</request>"@;
    let body = spec_fields_xml_from(fs, 0);
    let s = spec_inpas_xml(fs, meta);
    assert(spec_meta_xml(meta) =~= Seq::<char>::empty());
    assert(s =~= decl + open_req + body + close_req);
    let p1 = decl.len() as int;
    let p2 = p1 + open_req.len();
    let p3 = p2 + body.len();
    let p4 = p3 + close_req.len();
    assert(s.len() == p4);
    assert forall|k: int| 0 <= k < p1 implies s[k] == decl[k] by {
        assert(s[k] == (decl + open_req + body + close_req)[k]);
    }
    assert forall|k: int| 0 <= k < open_req.len() implies s[p1 + k] == open_req[k] by {
        assert(s[p1 + k] == (decl + open_req + body + close_req)[p1 + k]);
    }
    assert forall|k: int| 0 <= k < body.len() implies s[p2 + k] == body[k] by {
        assert(s[p2 + k] == (decl + open_req + body + close_req)[p2 + k]);
    }
    assert forall|k: int| 0 <= k < close_req.len() implies s[p3 + k] == close_req[k] by {
        assert(s[p3 + k] == (decl + open_req + body + close_req)[p3 + k]);
    }
    let init = InpasScanView { fields: Map::empty(), error_code: None, error_description: None };
    // The declaration: not a captured start, skipped to its '>'.
    assert(s[0] == '<');
    lemma_not_match(s, 0, "<field"@, 1);
    lemma_not_match(s, 0, "<errorcode"@, 1);
    lemma_not_match(s, 0, "<errordescription"@, 1);
    lemma_not_match(s, 0, "<errorDescription"@, 1);
    assert(sp_captured_at(s, 0) is None);
    assert(sp_scan(s, 0, SpecScanState::Out, init) == sp_scan(s, 1, SpecScanState::SkipTag, init));
    assert(forall|k: int| 1 <= k < p1 - 1 ==> s[k] != '>');
    assert(s[p1 - 1] == '>');
    lemma_scan_skip_tag(s, 1, p1 - 1, init);
    // The request opener: skipped the same way.
    assert(s[p1] == '<');
    lemma_not_match(s, p1, "<field"@, 1);
    lemma_not_match(s, p1, "<errorcode"@, 1);
    lemma_not_match(s, p1, "<errordescription"@, 1);
    lemma_not_match(s, p1, "<errorDescription"@, 1);
    assert(sp_captured_at(s, p1) is None);
    assert(sp_scan(s, p1, SpecScanState::Out, init) == sp_scan(
        s,
        p1 + 1,
        SpecScanState::SkipTag,
        init,
    ));
    assert(forall|k: int| p1 + 1 <= k < p2 - 1 ==> s[k] != '>');
    assert(s[p2 - 1] == '>');
    lemma_scan_skip_tag(s, p1 + 1, p2 - 1, init);
    // The fields.
    assert forall|j: int| 0 <= j < body.len() implies #[trigger] s.subrange(p2, p3)[j]
        == body[j] by {
        assert(s[p2 + j] == body[j]);
    }
    assert(s.subrange(p2, p2 + body.len() as int) =~= body);
    lemma_scan_fields(s, p2, fs, 0, init);
    let done = InpasScanView {
        fields: spec_fields_map_from(fs, 0, Map::empty()),
        error_code: None,
        error_description: None,
    };
    // The request closer: skipped; then the document ends outside.
    assert(s[p3] == '<');
    lemma_not_match(s, p3, "<field"@, 1);
    lemma_not_match(s, p3, "<errorcode"@, 1);
    lemma_not_match(s, p3, "<errordescription"@, 1);
    lemma_not_match(s, p3, "<errorDescription"@, 1);
    assert(sp_captured_at(s, p3) is None);
    assert(sp_scan(s, p3, SpecScanState::Out, done) == sp_scan(
        s,
        p3 + 1,
        SpecScanState::SkipTag,
        done,
    ));
    assert(forall|k: int| p3 + 1 <= k < p4 - 1 ==> s[k] != '>');
    assert(s[p4 - 1] == '>');
    lemma_scan_skip_tag(s, p3 + 1, p4 - 1, done);
    assert(sp_scan(s, p4, SpecScanState::Out, done) == Some(done));
}

/// Looking a field up after the round trip: when the zero-padded ids do
/// not collide, the recovered map holds each field's value under its
/// zero-padded id.
pub proof fn lemma_fields_map_lookup(
    fs: Seq<InpasFieldView>,
    k: int,
    acc: Map<Seq<char>, Seq<char>>,
)
    requires
        0 <= k < fs.len(),
        forall|a: int, b: int|
            0 <= a < b < fs.len() ==> spec_zero_pad2((#[trigger] fs[a]).id) != spec_zero_pad2(
                (#[trigger] fs[b]).id,
            ),
    ensures
        spec_fields_map_from(fs, 0, acc).contains_key(spec_zero_pad2(fs[k].id)),
        spec_fields_map_from(fs, 0, acc)[spec_zero_pad2(fs[k].id)] == fs[k].value,
{
    lemma_fields_map_lookup_from(fs, 0, k, acc);
}

proof fn lemma_fields_map_lookup_from(
    fs: Seq<InpasFieldView>,
    j: int,
    k: int,
    acc: Map<Seq<char>, Seq<char>>,
)
    requires
        0 <= j <= k < fs.len(),
        forall|a: int, b: int|
            0 <= a < b < fs.len() ==> spec_zero_pad2((#[trigger] fs[a]).id) != spec_zero_pad2(
                (#[trigger] fs[b]).id,
            ),
    ensures
        spec_fields_map_from(fs, j, acc).contains_key(spec_zero_pad2(fs[k].id)),
        spec_fields_map_from(fs, j, acc)[spec_zero_pad2(fs[k].id)] == fs[k].value,
    decreases fs.len() - j,
{
    if j == k {
        lemma_fields_map_present_from(
            fs,
            k + 1,
            spec_zero_pad2(fs[k].id),
            fs[k].value,
            acc.insert(spec_zero_pad2(fs[k].id), fs[k].value),
        );
    } else {
        lemma_fields_map_lookup_from(fs, j + 1, k, acc.insert(spec_zero_pad2(fs[j].id), fs[j].value));
    }
}

proof fn lemma_fields_map_present_from(
    fs: Seq<InpasFieldView>,
    j: int,
    key: Seq<char>,
    value: Seq<char>,
    acc: Map<Seq<char>, Seq<char>>,
)
    requires
        0 <= j <= fs.len(),
        acc.contains_key(key),
        acc[key] == value,
        forall|a: int| j <= a < fs.len() ==> spec_zero_pad2((#[trigger] fs[a]).id) != key,
    ensures
        spec_fields_map_from(fs, j, acc).contains_key(key),
        spec_fields_map_from(fs, j, acc)[key] == value,
    decreases fs.len() - j,
{
    if j < fs.len() {
        lemma_fields_map_present_from(
            fs,
            j + 1,
            key,
            value,
            acc.insert(spec_zero_pad2(fs[j].id), fs[j].value),
        );
    }
}

/// The scanner run over a whole document.
pub open spec fn spec_scan_inpas(s: Seq<char>) -> Option<InpasScanView> {
    sp_scan(
        s,
        0,
        SpecScanState::Out,
        InpasScanView {
            fields: Map::empty(),
            error_code: None,
            error_description: None,
        },
    )
}

enum ScanState {
    Out,
    SkipTag,
    SkipName(CapturedElem),
    AttrReady(CapturedElem, Option<String>),
    AttrName(CapturedElem, Option<String>, usize),
    AttrAfterName(CapturedElem, Option<String>, String),
    AttrAfterEq(CapturedElem, Option<String>, String),
    AttrValue(CapturedElem, Option<String>, String, usize, char),
    AttrSlash(CapturedElem),
    Content(CapturedElem, Option<String>, usize, String, Option<String>),
    ContentTag(CapturedElem, Option<String>, String, Option<String>),
}

impl View for ScanState {
    type V = SpecScanState;

    closed spec fn view(&self) -> SpecScanState {
        match self {
            ScanState::Out => SpecScanState::Out,
            ScanState::SkipTag => SpecScanState::SkipTag,
            ScanState::SkipName(e) => SpecScanState::SkipName(*e),
            ScanState::AttrReady(e, id) => SpecScanState::AttrReady(*e, id.deep_view()),
            ScanState::AttrName(e, id, ns) => SpecScanState::AttrName(
                *e,
                id.deep_view(),
                *ns as int,
            ),
            ScanState::AttrAfterName(e, id, nm) => SpecScanState::AttrAfterName(
                *e,
                id.deep_view(),
                nm@,
            ),
            ScanState::AttrAfterEq(e, id, nm) => SpecScanState::AttrAfterEq(
                *e,
                id.deep_view(),
                nm@,
            ),
            ScanState::AttrValue(e, id, nm, vs, q) => SpecScanState::AttrValue(
                *e,
                id.deep_view(),
                nm@,
                *vs as int,
                *q,
            ),
            ScanState::AttrSlash(e) => SpecScanState::AttrSlash(*e),
            ScanState::Content(e, id, rs, all, last) => SpecScanState::Content(
                *e,
                id.deep_view(),
                *rs as int,
                all@,
                last.deep_view(),
            ),
            ScanState::ContentTag(e, id, all, last) => SpecScanState::ContentTag(
                *e,
                id.deep_view(),
                all@,
                last.deep_view(),
            ),
        }
    }
}

fn is_ws(c: char) -> (r: bool)
    ensures
        r == sp_ws(c),
{
    c == ' ' || c == '\t' || c == '\r' || c == '\n'
}

fn is_delim(c: char) -> (r: bool)
    ensures
        r == sp_delim(c),
{
    is_ws(c) || c == '>' || c == '/'
}

fn captured_at(chars: &Vec<char>, i: usize) -> (r: Option<CapturedElem>)
    requires
        i <= chars@.len(),
    ensures
        r == sp_captured_at(chars@, i as int),
{
    let n: usize = chars.len();
    if match_at(chars, i, "<field") && n - i > 6 && is_delim(chars[i + 6]) {
        Some(CapturedElem::Field)
    } else if match_at(chars, i, "<errorcode") && n - i > 10 && is_delim(chars[i + 10]) {
        Some(CapturedElem::ErrorCode)
    } else if (match_at(chars, i, "<errordescription") || match_at(chars, i, "<errorDescription"))
        && n - i > 17 && is_delim(chars[i + 17]) {
        Some(CapturedElem::ErrorDesc)
    } else {
        None
    }
}

fn is_close_at(chars: &Vec<char>, i: usize, e: CapturedElem) -> (r: bool)
    requires
        i <= chars@.len(),
    ensures
        r == sp_is_close(chars@, i as int, e),
{
    match e {
        CapturedElem::Field => match_at(chars, i, "</field>"),
        CapturedElem::ErrorCode => match_at(chars, i, "</errorcode>"),
        CapturedElem::ErrorDesc => match_at(chars, i, "</errordescription>") || match_at(
            chars,
            i,
            "</errorDescription>",
        ),
    }
}

/// The trimmed text of `xml` between character positions `a` and `b`.
fn trim_substring(xml: &str, chars: &Vec<char>, a: usize, b: usize) -> (r: String)
    requires
        chars@ == xml@,
        a <= b <= xml@.len(),
    ensures
        r@ == sp_trim_range(xml@, a as int, b as int),
{
    let mut lo: usize = a;
    while lo < b && is_ws(chars[lo])
        invariant
            a <= lo <= b,
            b <= chars@.len(),
            chars@ == xml@,
            sp_trim_lo(xml@, a as int, b as int) == sp_trim_lo(xml@, lo as int, b as int),
        decreases b - lo,
    {
        lo = lo + 1;
    }
    proof {
        assert(sp_trim_lo(xml@, lo as int, b as int) == lo);
    }
    let mut hi: usize = b;
    while hi > lo && is_ws(chars[hi - 1])
        invariant
            lo <= hi <= b,
            b <= chars@.len(),
            chars@ == xml@,
            sp_trim_hi(xml@, lo as int, b as int) == sp_trim_hi(xml@, lo as int, hi as int),
        decreases hi,
    {
        hi = hi - 1;
    }
    proof {
        assert(sp_trim_hi(xml@, lo as int, hi as int) == hi);
    }
    xml.substring_char(lo, hi).to_owned()
}

/// Zero-pads a parsed field id to at least two characters.
pub fn zero_pad2(s: String) -> (r: String)
    ensures
        r@ == spec_zero_pad2(s@),
{
    let n: usize = s.as_str().unicode_len();
    if n >= 2 {
        proof {
            assert(s@ =~= spec_zero_pad2(s@));
        }
        s
    } else if n == 1 {
        let r: String = "0".to_owned().concat(s.as_str());
        proof {
            reveal_strlit("0");
            assert(r@ =~= spec_zero_pad2(s@));
        }
        r
    } else {
        let r: String = "00".to_owned();
        proof {
            reveal_strlit("00");
            assert(s@ =~= Seq::<char>::empty());
            assert(r@ =~= spec_zero_pad2(s@));
        }
        r
    }
}

/// The response drawn from a finished scan: a non-empty error code element
/// makes a failed response carrying the code and description, with the
/// error text falling back to a message naming the code; otherwise the
/// fields are normalized as an INPAS raw map.
pub open spec fn spec_inpas_response(sc: InpasScanView) -> TerminalResponseView {
    match sc.error_code {
        Some(c) => if c.len() > 0 {
            TerminalResponseView {
                success: false,
                code: Some(c),
                message: sc.error_description,
                data: None,
                error: Some(
                    match sc.error_description {
                        Some(d) => if d.len() > 0 {
                            d
                        } else {
                            "DualConnector error code "@ + c
                        },
                        None => "DualConnector error code "@ + c,
                    },
                ),
            }
        } else {
            spec_build_response(ProtocolType::Inpas, sc.fields)
        },
        None => spec_build_response(ProtocolType::Inpas, sc.fields),
    }
}

/// Parses the DualConnector response document: `<field id="NN">text</field>`
/// elements become raw-map entries under their zero-padded ids (text runs
/// trimmed of whitespace and concatenated), `<errorcode>` and
/// `<errordescription>`/`<errorDescription>` are captured separately, and
/// every other element is skipped. Fails on an unterminated tag or element
/// or a malformed attribute.
pub fn parse_inpas_response(xml: &str) -> (r: Result<TerminalResponse, TerminalError>)
    ensures
        match r {
            Ok(resp) => spec_scan_inpas(xml@) matches Some(sc) && resp@ == spec_inpas_response(sc),
            Err(e) => spec_scan_inpas(xml@) is None && e@ is XmlParse,
        },
{
    let chars: Vec<char> = to_chars(xml);
    let n: usize = chars.len();
    let mut st: ScanState = ScanState::Out;
    let mut fields: RawMap = RawMap::new();
    let mut error_code: Option<String> = None;
    let mut error_description: Option<String> = None;
    let mut i: usize = 0;
    while i < n
        invariant
            i <= n,
            n == xml@.len(),
            chars@ == xml@,
            (match st@ {
                SpecScanState::AttrName(_, _, ns) => 0 <= ns <= i,
                SpecScanState::AttrValue(_, _, _, vs, _) => 0 <= vs <= i,
                SpecScanState::Content(_, _, rs, _, _) => 0 <= rs <= i,
                _ => true,
            }),
            spec_scan_inpas(xml@) == sp_scan(
                xml@,
                i as int,
                st@,
                InpasScanView {
                    fields: fields@,
                    error_code: error_code.deep_view(),
                    error_description: error_description.deep_view(),
                },
            ),
        decreases n - i,
    {
        let ghost res_v = InpasScanView {
            fields: fields@,
            error_code: error_code.deep_view(),
            error_description: error_description.deep_view(),
        };
        let c: char = chars[i];
        let cur: ScanState = st;
        let ghost stv = cur@;
        let next: ScanState = match cur {
            ScanState::Out => {
                if c == '<' {
                    match captured_at(&chars, i) {
                        Some(e) => ScanState::SkipName(e),
                        None => ScanState::SkipTag,
                    }
                } else {
                    ScanState::Out
                }
            },
            ScanState::SkipTag => {
                if c == '>' {
                    ScanState::Out
                } else {
                    ScanState::SkipTag
                }
            },
            ScanState::SkipName(e) => {
                if c == '>' {
                    ScanState::Content(e, None, i + 1, String::new(), None)
                } else if c == '/' {
                    ScanState::AttrSlash(e)
                } else if is_ws(c) {
                    ScanState::AttrReady(e, None)
                } else {
                    ScanState::SkipName(e)
                }
            },
            ScanState::AttrReady(e, id) => {
                if is_ws(c) {
                    ScanState::AttrReady(e, id)
                } else if c == '>' {
                    ScanState::Content(e, id, i + 1, String::new(), None)
                } else if c == '/' {
                    ScanState::AttrSlash(e)
                } else if c == '=' || c == '"' || c == '\'' {
                    proof {
                        assert(sp_scan(xml@, i as int, stv, res_v) is None);
                    }
                    return Err(TerminalError::XmlParse("malformed attribute".to_owned()));
                } else {
                    ScanState::AttrName(e, id, i)
                }
            },
            ScanState::AttrName(e, id, ns) => {
                if c == '=' {
                    let nm: String = xml.substring_char(ns, i).to_owned();
                    ScanState::AttrAfterEq(e, id, nm)
                } else if is_ws(c) {
                    let nm: String = xml.substring_char(ns, i).to_owned();
                    ScanState::AttrAfterName(e, id, nm)
                } else if c == '>' || c == '/' || c == '"' || c == '\'' {
                    proof {
                        assert(sp_scan(xml@, i as int, stv, res_v) is None);
                    }
                    return Err(TerminalError::XmlParse("malformed attribute".to_owned()));
                } else {
                    ScanState::AttrName(e, id, ns)
                }
            },
            ScanState::AttrAfterName(e, id, nm) => {
                if is_ws(c) {
                    ScanState::AttrAfterName(e, id, nm)
                } else if c == '=' {
                    ScanState::AttrAfterEq(e, id, nm)
                } else {
                    proof {
                        assert(sp_scan(xml@, i as int, stv, res_v) is None);
                    }
                    return Err(TerminalError::XmlParse("malformed attribute".to_owned()));
                }
            },
            ScanState::AttrAfterEq(e, id, nm) => {
                if is_ws(c) {
                    ScanState::AttrAfterEq(e, id, nm)
                } else if c == '"' || c == '\'' {
                    ScanState::AttrValue(e, id, nm, i + 1, c)
                } else {
                    proof {
                        assert(sp_scan(xml@, i as int, stv, res_v) is None);
                    }
                    return Err(TerminalError::XmlParse("malformed attribute".to_owned()));
                }
            },
            ScanState::AttrValue(e, id, nm, vs, q) => {
                if c == q {
                    let id2: Option<String> = if str_eq(nm.as_str(), "id") {
                        Some(xml.substring_char(vs, i).to_owned())
                    } else {
                        id
                    };
                    ScanState::AttrReady(e, id2)
                } else {
                    ScanState::AttrValue(e, id, nm, vs, q)
                }
            },
            ScanState::AttrSlash(e) => {
                if c == '>' {
                    ScanState::Out
                } else {
                    proof {
                        assert(sp_scan(xml@, i as int, stv, res_v) is None);
                    }
                    return Err(TerminalError::XmlParse("malformed empty element".to_owned()));
                }
            },
            ScanState::Content(e, id, rs, all, last) => {
                if c == '<' {
                    let run: String = trim_substring(xml, &chars, rs, i);
                    let run_empty: bool = run.as_str().unicode_len() == 0;
                    let all2: String = if run_empty {
                        all
                    } else {
                        all.concat(run.as_str())
                    };
                    let last2: Option<String> = if run_empty {
                        last
                    } else {
                        Some(run)
                    };
                    if is_close_at(&chars, i, e) {
                        match e {
                            CapturedElem::Field => {
                                match id {
                                    Some(idv) => {
                                        fields.insert(zero_pad2(idv), all2);
                                    },
                                    None => {
                                    },
                                }
                            },
                            CapturedElem::ErrorCode => {
                                match &last2 {
                                    Some(r2) => {
                                        error_code = Some(r2.clone());
                                    },
                                    None => {
                                    },
                                }
                            },
                            CapturedElem::ErrorDesc => {
                                match &last2 {
                                    Some(r2) => {
                                        error_description = Some(r2.clone());
                                    },
                                    None => {
                                    },
                                }
                            },
                        }
                        ScanState::SkipTag
                    } else {
                        ScanState::ContentTag(e, id, all2, last2)
                    }
                } else {
                    ScanState::Content(e, id, rs, all, last)
                }
            },
            ScanState::ContentTag(e, id, all, last) => {
                if c == '>' {
                    ScanState::Content(e, id, i + 1, all, last)
                } else {
                    ScanState::ContentTag(e, id, all, last)
                }
            },
        };
        st = next;
        i = i + 1;
        proof {
            assert(spec_scan_inpas(xml@) == sp_scan(
                xml@,
                i as int,
                st@,
                InpasScanView {
                    fields: fields@,
                    error_code: error_code.deep_view(),
                    error_description: error_description.deep_view(),
                },
            ));
        }
    }
    match st {
        ScanState::Out => {
        },
        _ => {
            return Err(TerminalError::XmlParse("unexpected end of document".to_owned()));
        },
    }
    let ghost sc = InpasScanView {
        fields: fields@,
        error_code: error_code.deep_view(),
        error_description: error_description.deep_view(),
    };
    proof {
        assert(spec_scan_inpas(xml@) == Some(sc));
    }
    let has_error: bool = match &error_code {
        Some(c) => c.as_str().unicode_len() > 0,
        None => false,
    };
    if has_error {
        let code: String = match error_code {
            Some(c) => c,
            None => String::new(),
        };
        let message: Option<String> = match &error_description {
            Some(d) => Some(d.clone()),
            None => None,
        };
        let error: String = match &error_description {
            Some(d) => {
                if d.as_str().unicode_len() > 0 {
                    d.clone()
                } else {
                    "DualConnector error code ".to_owned().concat(code.as_str())
                }
            },
            None => "DualConnector error code ".to_owned().concat(code.as_str()),
        };
        Ok(
            TerminalResponse {
                success: false,
                code: Some(code),
                message,
                data: None,
                error: Some(error),
            },
        )
    } else {
        Ok(crate::normalize::build_terminal_response_from_raw(ProtocolType::Inpas, fields))
    }
}

/// Case-insensitive match of one ASCII character.
pub open spec fn sp_ci(c: char, lower: char, upper: char) -> bool {
    c == lower || c == upper
}

/// Whether a trimmed Content-Type parameter starts with `charset=`,
/// ASCII-case-insensitively.
pub open spec fn sp_is_charset_param(part: Seq<char>) -> bool {
    &&& part.len() >= 8
    &&& sp_ci(part[0], 'c', 'C')
    &&& sp_ci(part[1], 'h', 'H')
    &&& sp_ci(part[2], 'a', 'A')
    &&& sp_ci(part[3], 'r', 'R')
    &&& sp_ci(part[4], 's', 'S')
    &&& sp_ci(part[5], 'e', 'E')
    &&& sp_ci(part[6], 't', 'T')
    &&& part[7] == '='
}

/// The charset named by the first `charset=` parameter of a Content-Type
/// value, scanning `;`-separated parameters from `i`.
pub open spec fn spec_extract_charset_from(s: Seq<char>, i: int) -> Option<Seq<char>>
    decreases s.len() - i,
{
    let k = spec_find(s, i, ';');
    let part = sp_trim_range(s, i, k);
    if sp_is_charset_param(part) {
        Some(part.subrange(8, part.len() as int))
    } else if k >= s.len() {
        None
    } else if k < i {
        // never reached: a found position is at or after the start
        None
    } else {
        spec_extract_charset_from(s, k + 1)
    }
}

/// The charset of a Content-Type value, when one is named.
pub open spec fn spec_extract_charset(s: Seq<char>) -> Option<Seq<char>> {
    spec_extract_charset_from(s, 0)
}

fn trim_bounds(chars: &Vec<char>, a: usize, b: usize) -> (r: (usize, usize))
    requires
        a <= b <= chars@.len(),
    ensures
        r.0 == sp_trim_lo(chars@, a as int, b as int),
        r.1 == sp_trim_hi(chars@, r.0 as int, b as int),
        a <= r.0 <= r.1 <= b,
{
    let mut lo: usize = a;
    while lo < b && is_ws(chars[lo])
        invariant
            a <= lo <= b,
            b <= chars@.len(),
            sp_trim_lo(chars@, a as int, b as int) == sp_trim_lo(chars@, lo as int, b as int),
        decreases b - lo,
    {
        lo = lo + 1;
    }
    let mut hi: usize = b;
    while hi > lo && is_ws(chars[hi - 1])
        invariant
            lo <= hi <= b,
            b <= chars@.len(),
            sp_trim_hi(chars@, lo as int, b as int) == sp_trim_hi(chars@, lo as int, hi as int),
        decreases hi,
    {
        hi = hi - 1;
    }
    (lo, hi)
}

/// Finds the charset parameter of a Content-Type header value: parameters
/// are split on `;`, trimmed, and matched against `charset=` without case;
/// the value after the `=` is returned as given.
pub fn extract_charset<'a>(content_type: Option<&'a str>) -> (r: Option<&'a str>)
    ensures
        match content_type {
            Some(ct) => r.deep_view() == spec_extract_charset(ct@),
            None => r is None,
        },
{
    let ct: &str = match content_type {
        Some(c) => c,
        None => {
            return None;
        },
    };
    proof {
        assert(content_type == Some(ct));
    }
    let chars: Vec<char> = to_chars(ct);
    let n: usize = chars.len();
    let mut i: usize = 0;
    loop
        invariant
            i <= n,
            n == ct@.len(),
            chars@ == ct@,
            content_type == Some(ct),
            spec_extract_charset(ct@) == spec_extract_charset_from(ct@, i as int),
        decreases n - i,
    {
        let k: usize = find_char(&chars, i, ';');
        let (lo, hi) = trim_bounds(&chars, i, k);
        let ghost part = sp_trim_range(ct@, i as int, k as int);
        proof {
            lemma_find(ct@, i as int, ';');
            assert(part =~= ct@.subrange(lo as int, hi as int));
        }
        let is_charset: bool = hi - lo >= 8 && (chars[lo] == 'c' || chars[lo] == 'C') && (chars[lo
            + 1] == 'h' || chars[lo + 1] == 'H') && (chars[lo + 2] == 'a' || chars[lo + 2] == 'A')
            && (chars[lo + 3] == 'r' || chars[lo + 3] == 'R') && (chars[lo + 4] == 's' || chars[lo
            + 4] == 'S') && (chars[lo + 5] == 'e' || chars[lo + 5] == 'E') && (chars[lo + 6] == 't'
            || chars[lo + 6] == 'T') && chars[lo + 7] == '=';
        proof {
            assert(forall|j: int| 0 <= j < part.len() ==> part[j] == ct@[lo + j]);
            assert(is_charset == sp_is_charset_param(part));
        }
        if is_charset {
            let value: &str = ct.substring_char(lo + 8, hi);
            proof {
                assert(value@ =~= part.subrange(8, part.len() as int));
                assert(spec_extract_charset_from(ct@, i as int) == Some(
                    part.subrange(8, part.len() as int),
                ));
                assert(Some(value).deep_view() == Some(value@));
            }
            return Some(value);
        }
        if k >= n {
            proof {
                assert(spec_extract_charset_from(ct@, i as int) is None);
            }
            return None;
        }
        i = k + 1;
    }
}

/// How the response body reads as text: by the windows-1251 decoder when
/// the Content-Type names `windows-1251` or `cp1251`, else as lossy UTF-8.
pub open spec fn spec_decoded_body(ct: Option<Seq<char>>, b: Seq<u8>) -> Seq<char> {
    match ct {
        Some(c) => match spec_extract_charset(c) {
            Some(cs) => if cs == "windows-1251"@ || cs == "cp1251"@ {
                cp1251_str_of(b)
            } else {
                utf8_lossy_str_of(b)
            },
            None => utf8_lossy_str_of(b),
        },
        None => utf8_lossy_str_of(b),
    }
}

/// Decodes the response body by the charset its Content-Type names.
pub fn decode_http_body(content_type: Option<&str>, body: &[u8]) -> (r: String)
    requires
        body@.len() < usize::MAX / 4,
    ensures
        r@ == spec_decoded_body(content_type.deep_view(), body@),
{
    let charset: Option<&str> = extract_charset(content_type);
    let use_cp1251: bool = match charset {
        Some(cs) => str_eq(cs, "windows-1251") || str_eq(cs, "cp1251"),
        None => false,
    };
    if use_cp1251 {
        cp1251_decode(body)
    } else {
        utf8_lossy_decode(body)
    }
}

/// The connection block drawn from the configuration: a TCP connection
/// requires address and port and yields `ipaddr`; a serial connection
/// requires ncom and baudrate; the timeout is always carried through.
pub open spec fn spec_envelope_options(c: crate::types::ConnectionConfigView) -> Option<
    EnvelopeOptionsView,
> {
    match c.connection_type {
        ConnectionType::Tcp => match (c.address, c.port) {
            (Some(a), Some(p)) => Some(
                EnvelopeOptionsView {
                    timeout: c.timeout,
                    ipaddr: Some(a + seq![':'] + spec_dec(p as nat)),
                    ncom: None,
                    baudrate: None,
                },
            ),
            _ => None,
        },
        ConnectionType::Usb => match (c.ncom, c.baudrate) {
            (Some(nc), Some(b)) => Some(
                EnvelopeOptionsView {
                    timeout: c.timeout,
                    ipaddr: None,
                    ncom: Some(nc),
                    baudrate: Some(b),
                },
            ),
            _ => None,
        },
        ConnectionType::Bluetooth => Some(
            EnvelopeOptionsView { timeout: c.timeout, ipaddr: None, ncom: None, baudrate: None },
        ),
    }
}

/// Builds the connection block for the request, failing with the missing
/// configuration fields when the chosen mode lacks them.
pub fn envelope_options_from_config(config: &ConnectionConfig) -> (r: Result<
    EnvelopeOptions,
    TerminalError,
>)
    ensures
        match r {
            Ok(m) => spec_envelope_options(config@) == Some(m@),
            Err(e) => spec_envelope_options(config@) is None && e@ is ConfigMissing,
        },
{
    match config.connection_type {
        ConnectionType::Tcp => {
            let address: &String = match &config.address {
                Some(a) => a,
                None => {
                    return Err(
                        TerminalError::ConfigMissing(
                            "Fields address and port are required for tcp connection in inpas mode".to_owned(),
                        ),
                    );
                },
            };
            let port: u16 = match config.port {
                Some(p) => p,
                None => {
                    return Err(
                        TerminalError::ConfigMissing(
                            "Fields address and port are required for tcp connection in inpas mode".to_owned(),
                        ),
                    );
                },
            };
            let mut ipaddr: String = address.clone();
            ipaddr.append(":");
            let digits: String = dec_string(port as u64);
            ipaddr.append(digits.as_str());
            proof {
                reveal_strlit(":");
                assert(ipaddr@ =~= config@.address->0 + seq![':'] + spec_dec(port as nat));
            }
            Ok(
                EnvelopeOptions {
                    timeout: config.timeout,
                    ipaddr: Some(ipaddr),
                    ncom: None,
                    baudrate: None,
                },
            )
        },
        ConnectionType::Usb => {
            let ncom: &String = match &config.ncom {
                Some(n) => n,
                None => {
                    return Err(
                        TerminalError::ConfigMissing(
                            "Fields ncom and baudrate (USB port) are required for usb connection in inpas mode".to_owned(),
                        ),
                    );
                },
            };
            let baudrate: u32 = match config.baudrate {
                Some(b) => b,
                None => {
                    return Err(
                        TerminalError::ConfigMissing(
                            "Fields ncom and baudrate (USB port) are required for usb connection in inpas mode".to_owned(),
                        ),
                    );
                },
            };
            Ok(
                EnvelopeOptions {
                    timeout: config.timeout,
                    ipaddr: None,
                    ncom: Some(ncom.clone()),
                    baudrate: Some(baudrate),
                },
            )
        },
        ConnectionType::Bluetooth => Ok(
            EnvelopeOptions { timeout: config.timeout, ipaddr: None, ncom: None, baudrate: None },
        ),
    }
}

/// A prepared DualConnector request: the target URL and the Windows-1251
/// body bytes.
#[derive(Debug)]
pub struct InpasRequest {
    pub url: String,
    pub body: Vec<u8>,
}

/// Prepares the DualConnector request for a field list: requires `dc_host`
/// and the connection block's fields, builds the document, and encodes it
/// as Windows-1251. The impossible case of a document too long to encode
/// is reported as a transport error rather than reached.
pub fn prepare_inpas_request(config: &ConnectionConfig, fields: &Vec<InpasField>) -> (r: Result<
    InpasRequest,
    TerminalError,
>)
    ensures
        match r {
            Ok(req) => {
                &&& config@.dc_host matches Some(h) && req.url@ == (if spec_has_scheme(h) {
                    h
                } else {
                    "http://"@ + h
                })
                &&& spec_envelope_options(config@) matches Some(m) && req.body@
                    == cp1251_bytes_of(spec_inpas_xml(fields.deep_view(), m))
            },
            Err(e) => {
                ||| config@.dc_host is None && e@ is ConfigMissing
                ||| spec_envelope_options(config@) is None && e@ is ConfigMissing
                ||| (e@ is TransportIo && (spec_envelope_options(config@) matches Some(m)
                    && spec_inpas_xml(fields.deep_view(), m).len() >= usize::MAX / 16))
            },
        },
{
    let dc_host: &String = match &config.dc_host {
        Some(h) => h,
        None => {
            return Err(
                TerminalError::ConfigMissing(
                    "dcHost property is required for inpas protocol".to_owned(),
                ),
            );
        },
    };
    let meta: EnvelopeOptions = match envelope_options_from_config(config) {
        Ok(m) => m,
        Err(e) => {
            return Err(e);
        },
    };
    let xml: String = build_inpas_xml(fields, &meta);
    if xml.as_str().unicode_len() >= usize::MAX / 16 {
        return Err(TerminalError::TransportIo("request body too large".to_owned()));
    }
    let body: Vec<u8> = cp1251_encode(xml.as_str());
    let url: String = normalize_dc_url(dc_host.as_str());
    Ok(InpasRequest { url, body })
}

/// Consumes the DualConnector's HTTP answer: a 4xx/5xx status is an HTTP
/// error carrying the status and the lossily decoded body; any other
/// status has its body decoded by its Content-Type charset and parsed as
/// the response document.
pub fn handle_inpas_http_response(status: u16, content_type: Option<&str>, body: &[u8]) -> (r:
    Result<TerminalResponse, TerminalError>)
    requires
        body@.len() < usize::MAX / 4,
    ensures
        400 <= status < 600 ==> (r matches Err(e) && e@ == TerminalErrorView::HttpStatus(
            status,
            utf8_lossy_str_of(body@),
        )),
        !(400 <= status < 600) ==> match r {
            Ok(resp) => spec_scan_inpas(
                spec_decoded_body(content_type.deep_view(), body@),
            ) matches Some(sc) && resp@ == spec_inpas_response(sc),
            Err(e) => spec_scan_inpas(spec_decoded_body(content_type.deep_view(), body@)) is None
                && e@ is XmlParse,
        },
{
    if 400 <= status && status < 600 {
        let text: String = utf8_lossy_decode(body);
        return Err(TerminalError::HttpStatus(status, text));
    }
    let decoded: String = decode_http_body(content_type, body);
    parse_inpas_response(decoded.as_str())
}

/// Whether a URL already carries a scheme the driver accepts.
pub open spec fn spec_has_scheme(s: Seq<char>) -> bool {
    spec_match(s, 0, "http://"@) || spec_match(s, 0, "https://"@)
}

/// Normalizes the DualConnector host: a bare `host[:port]` gets the
/// `http://` scheme; a URL that already has one passes through.
pub fn normalize_dc_url(host: &str) -> (r: String)
    ensures
        spec_has_scheme(host@) ==> r@ == host@,
        !spec_has_scheme(host@) ==> r@ == "http://"@ + host@,
{
    let chars: Vec<char> = to_chars(host);
    if match_at(&chars, 0, "http://") || match_at(&chars, 0, "https://") {
        host.to_owned()
    } else {
        let r: String = "http://".to_owned().concat(host);
        r
    }
}

} // verus!
