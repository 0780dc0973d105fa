//! Typed headers, the start line, and the message assembler.
//!
//! [`parse_sip_header`] reads one header line and routes its value by the
//! exact header name; [`parse_sip_headers`] reads the whole header block;
//! [`parse_sip_method`] reads the start line; [`parse_sip_message`] puts a
//! complete message together.  Each contract says the outcome equals the
//! functional model in [`crate::grammar`].

use vstd::prelude::*;

pub mod types;

use crate::grammar::{
    spec_cseq_value, spec_digest_value, spec_header_items, spec_line_value,
    spec_new_req, spec_parse_header, spec_parse_sip_message, spec_parse_sip_method,
    spec_parse_sip_request, spec_parse_sip_response, spec_via_value, PErr, Rule, SipHeaderV,
    SipMessageV, SipMethodV,
};
use crate::scan::{copy_range, find_crlf, scan, ascii_eq, ByteClass};
use types::{
    parse_contact, parse_params, parse_sock_addr, parse_str, parse_str_line, parse_str_list,
    parse_u32, parse_uri, vres, ContactInfo, Params, ParseError, SockAddr, URI,
};

verus! {

/// One typed header occurrence.  Repeated header names are not merged:
/// each occurrence stands on its own in the message's header sequence.
#[derive(Debug, PartialEq, Eq)]
pub enum SipHeader {
    Contact(ContactInfo),
    To(ContactInfo),
    From(ContactInfo),
    Expires(u32),
    MaxForwards(u32),
    ContentLength(u32),
    CallID(Vec<u8>),
    Accept(Vec<u8>),
    UserAgent(Vec<u8>),
    Event(Vec<u8>),
    Allow(Vec<Vec<u8>>),
    AllowEvents(Vec<Vec<u8>>),
    Supported(Vec<Vec<u8>>),
    Authorization(Vec<Vec<u8>>),
    WWWAuthenticate(Vec<Vec<u8>>),
    SessionID(Vec<u8>),
    Server(Vec<u8>),
    Date(Vec<u8>),
    ContentType(Vec<u8>),
    Require(Vec<Vec<u8>>),
    AcceptLanguage(Vec<u8>),
    /// Minimum value for `Session-Expires`.
    MinSE(u32),
    SessionExpires { value: u32, params: Params },
    Via { protocol: Vec<u8>, addr: SockAddr, params: Params },
    CSeq { seq: u32, header: Vec<u8> },
    Unknown { name: Vec<u8>, value: Vec<u8> },
}

impl View for SipHeader {
    type V = SipHeaderV;

    open spec fn view(&self) -> SipHeaderV {
        match *self {
            SipHeader::Contact(ref c) => SipHeaderV::Contact(c@),
            SipHeader::To(ref c) => SipHeaderV::To(c@),
            SipHeader::From(ref c) => SipHeaderV::From(c@),
            SipHeader::Expires(v) => SipHeaderV::Expires(v),
            SipHeader::MaxForwards(v) => SipHeaderV::MaxForwards(v),
            SipHeader::ContentLength(v) => SipHeaderV::ContentLength(v),
            SipHeader::CallID(ref v) => SipHeaderV::CallID(v@),
            SipHeader::Accept(ref v) => SipHeaderV::Accept(v@),
            SipHeader::UserAgent(ref v) => SipHeaderV::UserAgent(v@),
            SipHeader::Event(ref v) => SipHeaderV::Event(v@),
            SipHeader::Allow(ref v) => SipHeaderV::Allow(v.deep_view()),
            SipHeader::AllowEvents(ref v) => SipHeaderV::AllowEvents(v.deep_view()),
            SipHeader::Supported(ref v) => SipHeaderV::Supported(v.deep_view()),
            SipHeader::Authorization(ref v) => SipHeaderV::Authorization(v.deep_view()),
            SipHeader::WWWAuthenticate(ref v) => SipHeaderV::WWWAuthenticate(v.deep_view()),
            SipHeader::SessionID(ref v) => SipHeaderV::SessionID(v@),
            SipHeader::Server(ref v) => SipHeaderV::Server(v@),
            SipHeader::Date(ref v) => SipHeaderV::Date(v@),
            SipHeader::ContentType(ref v) => SipHeaderV::ContentType(v@),
            SipHeader::Require(ref v) => SipHeaderV::Require(v.deep_view()),
            SipHeader::AcceptLanguage(ref v) => SipHeaderV::AcceptLanguage(v@),
            SipHeader::MinSE(v) => SipHeaderV::MinSE(v),
            SipHeader::SessionExpires { value, ref params } => SipHeaderV::SessionExpires {
                value,
                params: params.deep_view(),
            },
            SipHeader::Via { ref protocol, ref addr, ref params } => SipHeaderV::Via {
                protocol: protocol@,
                addr: addr@,
                params: params.deep_view(),
            },
            SipHeader::CSeq { seq, ref header } => SipHeaderV::CSeq { seq, header: header@ },
            SipHeader::Unknown { ref name, ref value } => SipHeaderV::Unknown {
                name: name@,
                value: value@,
            },
        }
    }
}

impl DeepView for SipHeader {
    type V = SipHeaderV;

    open spec fn deep_view(&self) -> SipHeaderV {
        self.view()
    }
}

/// The start line: one request variant per recognized method name, a
/// status-line variant, and a catch-all request for unknown methods.
#[derive(Debug, PartialEq, Eq)]
pub enum SipMethod {
    Register { uri: URI, version: Vec<u8> },
    Invite { uri: URI, version: Vec<u8> },
    Subscribe { uri: URI, version: Vec<u8> },
    Ack { uri: URI, version: Vec<u8> },
    Cancel { uri: URI, version: Vec<u8> },
    Bye { uri: URI, version: Vec<u8> },
    Options { uri: URI, version: Vec<u8> },
    Response { version: Vec<u8>, code: u32, reason: Vec<u8> },
    Unknown { method: Vec<u8>, uri: URI, version: Vec<u8> },
}

impl View for SipMethod {
    type V = SipMethodV;

    open spec fn view(&self) -> SipMethodV {
        match *self {
            SipMethod::Register { ref uri, ref version } => SipMethodV::Register {
                uri: uri@,
                version: version@,
            },
            SipMethod::Invite { ref uri, ref version } => SipMethodV::Invite {
                uri: uri@,
                version: version@,
            },
            SipMethod::Subscribe { ref uri, ref version } => SipMethodV::Subscribe {
                uri: uri@,
                version: version@,
            },
            SipMethod::Ack { ref uri, ref version } => SipMethodV::Ack {
                uri: uri@,
                version: version@,
            },
            SipMethod::Cancel { ref uri, ref version } => SipMethodV::Cancel {
                uri: uri@,
                version: version@,
            },
            SipMethod::Bye { ref uri, ref version } => SipMethodV::Bye {
                uri: uri@,
                version: version@,
            },
            SipMethod::Options { ref uri, ref version } => SipMethodV::Options {
                uri: uri@,
                version: version@,
            },
            SipMethod::Response { ref version, code, ref reason } => SipMethodV::Response {
                version: version@,
                code,
                reason: reason@,
            },
            SipMethod::Unknown { ref method, ref uri, ref version } => SipMethodV::Unknown {
                method: method@,
                uri: uri@,
                version: version@,
            },
        }
    }
}

impl SipMethod {
    /// Map a recognized request method name to its variant; any other
    /// name is data, not an error.
    pub fn new_req(method: Vec<u8>, uri: URI, version: Vec<u8>) -> (r: SipMethod)
        ensures
            r@ == spec_new_req(method@, uri@, version@),
    {
        proof {
            reveal_strlit("REGISTER");
            reveal_strlit("INVITE");
            reveal_strlit("ACK");
            reveal_strlit("CANCEL");
            reveal_strlit("BYE");
            reveal_strlit("OPTIONS");
            reveal_strlit("SUBSCRIBE");
        }
        if ascii_eq(method.as_slice(), "REGISTER") {
            SipMethod::Register { uri, version }
        } else if ascii_eq(method.as_slice(), "INVITE") {
            SipMethod::Invite { uri, version }
        } else if ascii_eq(method.as_slice(), "ACK") {
            SipMethod::Ack { uri, version }
        } else if ascii_eq(method.as_slice(), "CANCEL") {
            SipMethod::Cancel { uri, version }
        } else if ascii_eq(method.as_slice(), "BYE") {
            SipMethod::Bye { uri, version }
        } else if ascii_eq(method.as_slice(), "OPTIONS") {
            SipMethod::Options { uri, version }
        } else if ascii_eq(method.as_slice(), "SUBSCRIBE") {
            SipMethod::Subscribe { uri, version }
        } else {
            SipMethod::Unknown { method, uri, version }
        }
    }
}

/// A whole message: start line, headers in source order, and the body
/// lines, which this grammar leaves empty.
#[derive(Debug, PartialEq, Eq)]
pub struct SipMessage {
    pub method: SipMethod,
    pub headers: Vec<SipHeader>,
    pub content: Vec<Vec<u8>>,
}

impl View for SipMessage {
    type V = SipMessageV;

    open spec fn view(&self) -> SipMessageV {
        SipMessageV {
            method: self.method@,
            headers: self.headers.deep_view(),
            content: self.content.deep_view(),
        }
    }
}

} // verus!

verus! {

/// Everything up to the next CRLF, taken verbatim; the CRLF stays.
fn line_value(s: &[u8], p: usize) -> (r: Result<(usize, Vec<u8>), ParseError>)
    requires
        p <= s@.len(),
    ensures
        vres(r) == spec_line_value(s@, p as int),
        r matches Ok(t) ==> p <= t.0 <= s@.len(),
{
    let e = find_crlf(s, p);
    if e == s.len() {
        Err(ParseError::Incomplete)
    } else {
        Ok((e, copy_range(s, p, e)))
    }
}

/// A `Via` value: spaces, the literal `SIP/2.0/`, the transport up to a
/// space or tab, one space, host and port, then parameters.
fn via_value(s: &[u8], p: usize) -> (r: Result<(usize, SipHeader), ParseError>)
    requires
        p <= s@.len(),
    ensures
        vres(r) == spec_via_value(s@, p as int),
        r matches Ok(t) ==> p <= t.0 <= s@.len(),
{
    proof {
        reveal_strlit("SIP/2.0/");
    }
    let v0 = scan(s, p, ByteClass::Space);
    match crate::scan::match_lit(s, v0, "SIP/2.0/") {
        None => Err(ParseError::Incomplete),
        Some(false) => Err(ParseError::Syntax { rule: Rule::SipVersion, pos: v0 }),
        Some(true) => {
            let n = s.len();
            proof {
                assert(v0 + 8 <= n);
            }
            let t = scan(s, v0 + 8, ByteClass::NotSpace);
            if t == s.len() {
                Err(ParseError::Incomplete)
            } else if s[t] != 32 {
                Err(ParseError::Syntax { rule: Rule::Blank, pos: t })
            } else {
                let protocol = copy_range(s, v0 + 8, t);
                match parse_sock_addr(s, t + 1) {
                    Err(e) => Err(e),
                    Ok((p2, addr)) => match parse_params(s, p2) {
                        Err(e) => Err(e),
                        Ok((p3, params)) => Ok((p3, SipHeader::Via { protocol, addr, params })),
                    },
                }
            }
        },
    }
}

/// A `CSeq` value: the sequence number, one space, the method token.
fn cseq_value(s: &[u8], p: usize) -> (r: Result<(usize, SipHeader), ParseError>)
    requires
        p <= s@.len(),
    ensures
        vres(r) == spec_cseq_value(s@, p as int),
        r matches Ok(t) ==> p <= t.0 <= s@.len(),
{
    let (p1, n) = parse_u32(s, p);
    if p1 == s.len() {
        Err(ParseError::Incomplete)
    } else if s[p1] != 32 {
        Err(ParseError::Syntax { rule: Rule::Blank, pos: p1 })
    } else {
        let (p2, h) = parse_str(s, p1 + 1);
        Ok((p2, SipHeader::CSeq { seq: n, header: h }))
    }
}

/// A challenge or credential value: spaces, the literal `Digest `, then a
/// token list.
fn digest_value(s: &[u8], p: usize) -> (r: Result<(usize, Vec<Vec<u8>>), ParseError>)
    requires
        p <= s@.len(),
    ensures
        types::lres(r) == spec_digest_value(s@, p as int),
        r matches Ok(t) ==> p <= t.0 <= s@.len(),
{
    proof {
        reveal_strlit("Digest ");
    }
    let a = scan(s, p, ByteClass::Space);
    match crate::scan::match_lit(s, a, "Digest ") {
        None => Err(ParseError::Incomplete),
        Some(false) => Err(ParseError::Syntax { rule: Rule::Digest, pos: a }),
        Some(true) => {
            let n = s.len();
            proof {
                assert(a + 7 <= n);
            }
            parse_str_list(s, a + 7)
        },
    }
}

/// One header line: spaces, the name up to a `:` (matched exactly, case
/// sensitively), then the value grammar that the name selects; a name
/// outside the table keeps its raw value line.
#[verifier::rlimit(100)]
pub fn parse_sip_header(s: &[u8], i: usize) -> (r: Result<(usize, SipHeader), ParseError>)
    requires
        i <= s@.len(),
    ensures
        vres(r) == spec_parse_header(s@, i as int),
        r matches Ok(t) ==> i < t.0 <= s@.len(),
{
    let a = scan(s, i, ByteClass::Space);
    let j = scan(s, a, ByteClass::NotColon);
    if j == s.len() {
        return Err(ParseError::Incomplete);
    }
    let name = copy_range(s, a, j);
    let p = j + 1;
    proof {
        reveal_strlit("Contact");
        reveal_strlit("To");
        reveal_strlit("From");
        reveal_strlit("Expires");
        reveal_strlit("Max-Forwards");
        reveal_strlit("Content-Length");
        reveal_strlit("Call-ID");
        reveal_strlit("CSeq");
        reveal_strlit("Accept");
        reveal_strlit("User-Agent");
        reveal_strlit("Event");
        reveal_strlit("Allow");
        reveal_strlit("Allow-Events");
        reveal_strlit("Via");
        reveal_strlit("Supported");
        reveal_strlit("Authorization");
        reveal_strlit("Session-ID");
        reveal_strlit("Server");
        reveal_strlit("WWW-Authenticate");
        reveal_strlit("Date");
        reveal_strlit("Content-Type");
        reveal_strlit("Session-Expires");
        reveal_strlit("Require");
        reveal_strlit("Accept-Language");
        reveal_strlit("Min-SE");
    }
    let nb = name.as_slice();
    if ascii_eq(nb, "Contact") {
        match parse_contact(s, p) {
            Ok((e, c)) => Ok((e, SipHeader::Contact(c))),
            Err(er) => Err(er),
        }
    } else if ascii_eq(nb, "To") {
        match parse_contact(s, p) {
            Ok((e, c)) => Ok((e, SipHeader::To(c))),
            Err(er) => Err(er),
        }
    } else if ascii_eq(nb, "From") {
        match parse_contact(s, p) {
            Ok((e, c)) => Ok((e, SipHeader::From(c))),
            Err(er) => Err(er),
        }
    } else if ascii_eq(nb, "Expires") {
        let (e, v) = parse_u32(s, p);
        Ok((e, SipHeader::Expires(v)))
    } else if ascii_eq(nb, "Max-Forwards") {
        let (e, v) = parse_u32(s, p);
        Ok((e, SipHeader::MaxForwards(v)))
    } else if ascii_eq(nb, "Content-Length") {
        let (e, v) = parse_u32(s, p);
        Ok((e, SipHeader::ContentLength(v)))
    } else if ascii_eq(nb, "Call-ID") {
        let (e, v) = parse_str(s, p);
        Ok((e, SipHeader::CallID(v)))
    } else if ascii_eq(nb, "CSeq") {
        cseq_value(s, p)
    } else if ascii_eq(nb, "Accept") {
        let (e, v) = parse_str(s, p);
        Ok((e, SipHeader::Accept(v)))
    } else if ascii_eq(nb, "User-Agent") {
        match line_value(s, p) {
            Ok((e, v)) => Ok((e, SipHeader::UserAgent(v))),
            Err(er) => Err(er),
        }
    } else if ascii_eq(nb, "Event") {
        let (e, v) = parse_str(s, p);
        Ok((e, SipHeader::Event(v)))
    } else if ascii_eq(nb, "Allow") {
        match parse_str_list(s, p) {
            Ok((e, v)) => Ok((e, SipHeader::Allow(v))),
            Err(er) => Err(er),
        }
    } else if ascii_eq(nb, "Allow-Events") {
        match parse_str_list(s, p) {
            Ok((e, v)) => Ok((e, SipHeader::AllowEvents(v))),
            Err(er) => Err(er),
        }
    } else if ascii_eq(nb, "Via") {
        via_value(s, p)
    } else if ascii_eq(nb, "Supported") {
        match parse_str_list(s, p) {
            Ok((e, v)) => Ok((e, SipHeader::Supported(v))),
            Err(er) => Err(er),
        }
    } else if ascii_eq(nb, "Authorization") {
        match digest_value(s, p) {
            Ok((e, v)) => Ok((e, SipHeader::Authorization(v))),
            Err(er) => Err(er),
        }
    } else if ascii_eq(nb, "Session-ID") {
        match line_value(s, p) {
            Ok((e, v)) => Ok((e, SipHeader::SessionID(v))),
            Err(er) => Err(er),
        }
    } else if ascii_eq(nb, "Server") {
        match line_value(s, p) {
            Ok((e, v)) => Ok((e, SipHeader::Server(v))),
            Err(er) => Err(er),
        }
    } else if ascii_eq(nb, "WWW-Authenticate") {
        match digest_value(s, p) {
            Ok((e, v)) => Ok((e, SipHeader::WWWAuthenticate(v))),
            Err(er) => Err(er),
        }
    } else if ascii_eq(nb, "Date") {
        match line_value(s, p) {
            Ok((e, v)) => Ok((e, SipHeader::Date(v))),
            Err(er) => Err(er),
        }
    } else if ascii_eq(nb, "Content-Type") {
        match line_value(s, p) {
            Ok((e, v)) => Ok((e, SipHeader::ContentType(v))),
            Err(er) => Err(er),
        }
    } else if ascii_eq(nb, "Session-Expires") {
        let (p1, v) = parse_u32(s, p);
        match parse_params(s, p1) {
            Ok((e, params)) => Ok((e, SipHeader::SessionExpires { value: v, params })),
            Err(er) => Err(er),
        }
    } else if ascii_eq(nb, "Require") {
        match parse_str_list(s, p) {
            Ok((e, v)) => Ok((e, SipHeader::Require(v))),
            Err(er) => Err(er),
        }
    } else if ascii_eq(nb, "Accept-Language") {
        match line_value(s, p) {
            Ok((e, v)) => Ok((e, SipHeader::AcceptLanguage(v))),
            Err(er) => Err(er),
        }
    } else if ascii_eq(nb, "Min-SE") {
        let (e, v) = parse_u32(s, p);
        Ok((e, SipHeader::MinSE(v)))
    } else {
        match parse_str_line(s, p) {
            Ok((e, v)) => Ok((e, SipHeader::Unknown { name, value: v })),
            Err(er) => Err(er),
        }
    }
}

/// The header block: header lines, each followed by an optional CRLF,
/// until a bare CRLF line, which is consumed.
pub fn parse_sip_headers(s: &[u8], i: usize) -> (r: Result<(usize, Vec<SipHeader>), ParseError>)
    requires
        i <= s@.len(),
    ensures
        (match r {
            Ok((j, v)) => Ok::<(int, Seq<SipHeaderV>), PErr>((j as int, v.deep_view())),
            Err(e) => Err(e@),
        }) == spec_header_items(s@, i as int),
        r matches Ok(t) ==> i <= t.0 <= s@.len(),
{
    let mut out: Vec<SipHeader> = Vec::new();
    let mut cur: usize = i;
    proof {
        match spec_header_items(s@, i as int) {
            Ok((e, rest)) => {
                assert(out.deep_view() + rest =~= rest);
            },
            Err(_) => {},
        }
    }
    loop
        invariant
            i <= cur <= s@.len(),
            spec_header_items(s@, i as int) == (match spec_header_items(s@, cur as int) {
                Ok((e, rest)) => Ok::<(int, Seq<SipHeaderV>), PErr>((e, out.deep_view() + rest)),
                Err(er) => Err(er),
            }),
        decreases s@.len() - cur,
    {
        if s.len() - cur >= 2 && s[cur] == 13 && s[cur + 1] == 10 {
            proof {
                assert(out.deep_view() + Seq::<SipHeaderV>::empty() =~= out.deep_view());
            }
            return Ok((cur + 2, out));
        }
        if s.len() - cur < 2 {
            return Err(ParseError::Incomplete);
        }
        match parse_sip_header(s, cur) {
            Err(e) => {
                return Err(e);
            },
            Ok((p, h)) => {
                let p2 = if s.len() - p >= 2 && s[p] == 13 && s[p + 1] == 10 {
                    p + 2
                } else {
                    p
                };
                if p2 <= cur {
                    return Err(ParseError::Syntax { rule: Rule::List, pos: cur });
                }
                let ghost pre = out.deep_view();
                let ghost hv = h@;
                out.push(h);
                proof {
                    assert(out.deep_view() =~~= pre.push(hv));
                    match spec_header_items(s@, p2 as int) {
                        Ok((e, rest)) => {
                            assert(pre + (seq![hv] + rest) =~= out.deep_view() + rest);
                        },
                        Err(_) => {},
                    }
                }
                cur = p2;
            },
        }
    }
}

/// A request line: the method up to a space, the request address, the
/// version token, then CRLF.  A recognized method name selects its
/// variant; an unknown one is kept as data.
pub fn parse_sip_request(s: &[u8], i: usize) -> (r: Result<(usize, SipMethod), ParseError>)
    requires
        i <= s@.len(),
    ensures
        vres(r) == spec_parse_sip_request(s@, i as int),
        r matches Ok(t) ==> i <= t.0 <= s@.len(),
{
    let j = scan(s, i, ByteClass::NotSpaceByte);
    if j == s.len() {
        return Err(ParseError::Syntax { rule: Rule::Blank, pos: i });
    }
    let m = copy_range(s, i, j);
    match parse_uri(s, j + 1) {
        Err(er) => Err(er),
        Ok((p1, uri)) => {
            let (p2, v) = parse_str(s, p1);
            if s.len() - p2 >= 2 && s[p2] == 13 && s[p2 + 1] == 10 {
                Ok((p2 + 2, SipMethod::new_req(m, uri, v)))
            } else if s.len() - p2 < 2 {
                Err(ParseError::Incomplete)
            } else {
                Err(ParseError::Syntax { rule: Rule::Crlf, pos: p2 })
            }
        },
    }
}

/// A status line: the version token, a space, the status code, a space,
/// the reason up to CRLF, then CRLF.
pub fn parse_sip_response(s: &[u8], i: usize) -> (r: Result<(usize, SipMethod), ParseError>)
    requires
        i <= s@.len(),
    ensures
        vres(r) == spec_parse_sip_response(s@, i as int),
        r matches Ok(t) ==> i <= t.0 <= s@.len(),
{
    let (p1, version) = parse_str(s, i);
    if p1 == s.len() {
        return Err(ParseError::Incomplete);
    }
    if s[p1] != 32 {
        return Err(ParseError::Syntax { rule: Rule::Blank, pos: p1 });
    }
    let (p2, code) = parse_u32(s, p1 + 1);
    if p2 == s.len() {
        return Err(ParseError::Incomplete);
    }
    if s[p2] != 32 {
        return Err(ParseError::Syntax { rule: Rule::Blank, pos: p2 });
    }
    let a = scan(s, p2 + 1, ByteClass::Space);
    let e = find_crlf(s, a);
    if e == s.len() {
        return Err(ParseError::Incomplete);
    }
    proof {
        crate::scan::lemma_crlf_end(s@, a as int);
    }
    let reason = copy_range(s, a, e);
    Ok((e + 2, SipMethod::Response { version, code, reason }))
}

/// The start line: the status-line grammar first, and on any failure the
/// request-line grammar from the same position.
pub fn parse_sip_method(s: &[u8], i: usize) -> (r: Result<(usize, SipMethod), ParseError>)
    requires
        i <= s@.len(),
    ensures
        vres(r) == spec_parse_sip_method(s@, i as int),
        r matches Ok(t) ==> i <= t.0 <= s@.len(),
{
    match parse_sip_response(s, i) {
        Ok(t) => Ok(t),
        Err(_) => parse_sip_request(s, i),
    }
}

/// A whole message: the start line, then the header block up to and
/// including the blank line.  Body handling beyond `Content-Length` is
/// outside this grammar, so the content sequence comes back empty.
pub fn parse_sip_message(s: &[u8]) -> (r: Result<(usize, SipMessage), ParseError>)
    ensures
        vres(r) == spec_parse_sip_message(s@),
        r matches Ok(t) ==> t.0 <= s@.len(),
{
    match parse_sip_method(s, 0) {
        Err(er) => Err(er),
        Ok((p1, method)) => match parse_sip_headers(s, p1) {
            Err(er) => Err(er),
            Ok((p2, headers)) => {
                let content: Vec<Vec<u8>> = Vec::new();
                proof {
                    assert(content.deep_view() =~= Seq::<Seq<u8>>::empty());
                }
                Ok((p2, SipMessage { method, headers, content }))
            },
        },
    }
}

} // verus!
