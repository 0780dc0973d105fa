//! The value types of the grammar and the primitive and address parsers.
//!
//! Every parser takes the input bytes and the position to start at, and
//! returns the position just past what it consumed together with the parsed
//! value.  Its contract says that the outcome - value, end position, or
//! error - is exactly what the corresponding function of the functional
//! model in [`crate::grammar`] gives.

use vstd::prelude::*;

use crate::grammar::{
    spec_param_items, spec_parse_contact_info, spec_parse_params, spec_parse_sock_addr,
    spec_parse_str, spec_parse_str_line, spec_parse_str_list, spec_parse_u32,
    spec_parse_uri, spec_parse_uri_with_params, spec_parse_uri_wo_params, spec_str_items,
    ContactInfoV, PErr, Rule, SockAddrV, UriV,
};
use crate::scan::{class_pred, copy_range, find_crlf, run_end, scan, ByteClass};

verus! {

/// An ordered parameter list; duplicate keys are kept in encounter order.
pub type Params = Vec<Vec<u8>>;

/// Why a parse stopped: a grammar rule failed at a byte position, or the
/// input ended before a required delimiter or literal.
#[derive(Clone, Copy, Debug, PartialEq, Eq)]
pub enum ParseError {
    /// The input ended where the grammar still required something.
    Incomplete,
    /// The named rule did not match at `pos`.
    Syntax { rule: Rule, pos: usize },
}

impl View for ParseError {
    type V = PErr;

    open spec fn view(&self) -> PErr {
        match *self {
            ParseError::Incomplete => PErr::Incomplete,
            ParseError::Syntax { rule, pos } => PErr::Syntax { rule, pos: pos as int },
        }
    }
}

/// A host and port, as in a `Via` header.
#[derive(Debug, PartialEq, Eq)]
pub struct SockAddr {
    pub addr: Vec<u8>,
    pub port: u32,
}

impl View for SockAddr {
    type V = SockAddrV;

    open spec fn view(&self) -> SockAddrV {
        SockAddrV { addr: self.addr@, port: self.port }
    }
}

/// A SIP address: scheme, user part, optional host, optional numeric
/// port, and the parameters that belong to the address itself.
#[derive(Debug, PartialEq, Eq)]
pub struct URI {
    pub protocol: Vec<u8>,
    pub extension: Vec<u8>,
    pub domain: Option<Vec<u8>>,
    pub port: Option<u32>,
    pub params: Params,
}

impl View for URI {
    type V = UriV;

    open spec fn view(&self) -> UriV {
        UriV {
            protocol: self.protocol@,
            extension: self.extension@,
            domain: match self.domain {
                Some(ref d) => Some(d@),
                None => None,
            },
            port: self.port,
            params: self.params.deep_view(),
        }
    }
}

/// A contact address: optional display name, address, and the parameters
/// that belong to the surrounding header rather than the address.
#[derive(Debug, PartialEq, Eq)]
pub struct ContactInfo {
    pub alias: Option<Vec<u8>>,
    pub uri: URI,
    pub params: Params,
}

impl View for ContactInfo {
    type V = ContactInfoV;

    open spec fn view(&self) -> ContactInfoV {
        ContactInfoV {
            alias: match self.alias {
                Some(ref a) => Some(a@),
                None => None,
            },
            uri: self.uri@,
            params: self.params.deep_view(),
        }
    }
}

/// The outcome of a parser whose value views elementwise.
pub open spec fn vres<T: View>(r: Result<(usize, T), ParseError>) -> Result<(int, T::V), PErr> {
    match r {
        Ok((j, v)) => Ok((j as int, v@)),
        Err(e) => Err(e@),
    }
}

/// The outcome of a parser that yields a token list.
pub open spec fn lres(r: Result<(usize, Vec<Vec<u8>>), ParseError>) -> Result<
    (int, Seq<Seq<u8>>),
    PErr,
> {
    match r {
        Ok((j, v)) => Ok((j as int, v.deep_view())),
        Err(e) => Err(e@),
    }
}

/// Skip spaces and tabs, then read the maximal digit run as a `u32`.
/// An empty run or one whose value does not fit reads as 0.
pub fn parse_u32(s: &[u8], i: usize) -> (r: (usize, u32))
    requires
        i <= s@.len(),
    ensures
        (r.0 as int, r.1) == spec_parse_u32(s@, i as int),
        i <= r.0 <= s@.len(),
{
    let a = scan(s, i, ByteClass::Space);
    let b = scan(s, a, ByteClass::Digit);
    proof {
        crate::scan::lemma_run_end(s@, a as int, ByteClass::Digit);
    }
    let mut v: u64 = 0;
    let mut t = a;
    while t < b
        invariant
            a <= t <= b <= s@.len(),
            b == run_end(s@, a as int, ByteClass::Digit),
            forall|q: int| a <= q < b ==> class_pred(ByteClass::Digit, s@[q]),
            v <= u32::MAX ==> v == crate::grammar::dec_val(s@.subrange(a as int, t as int)),
            v > u32::MAX ==> crate::grammar::dec_val(s@.subrange(a as int, t as int)) > u32::MAX,
            v <= 42949672959,
        decreases b - t,
    {
        let dgt = (s[t] - 48) as u64;
        proof {
            let pre = s@.subrange(a as int, t as int);
            let cur = s@.subrange(a as int, t + 1);
            assert(cur.drop_last() =~= pre);
            assert(cur.last() == s@[t as int]);
        }
        if v <= 0xFFFF_FFFF {
            v = v * 10 + dgt;
        }
        t += 1;
    }
    proof {
        assert(s@.subrange(a as int, b as int) == s@.subrange(a as int, t as int));
    }
    if v <= 0xFFFF_FFFF {
        (b, v as u32)
    } else {
        (b, 0)
    }
}

/// Skip spaces and tabs, then read one token: a quote-delimited string,
/// or the maximal run of bytes that are not space, comma, semicolon, CR
/// or LF.  Never fails; the token may be empty.
pub fn parse_str(s: &[u8], i: usize) -> (r: (usize, Vec<u8>))
    requires
        i <= s@.len(),
    ensures
        (r.0 as int, r.1@) == spec_parse_str(s@, i as int),
        i <= r.0 <= s@.len(),
{
    let a = scan(s, i, ByteClass::Space);
    if a < s.len() && s[a] == 34 {
        let q = scan(s, a + 1, ByteClass::NotQuote);
        if q < s.len() {
            return (q + 1, copy_range(s, a + 1, q));
        }
    }
    let e = scan(s, a, ByteClass::Token);
    (e, copy_range(s, a, e))
}

/// Skip spaces and tabs, then take everything up to the next CRLF, which
/// stays unconsumed.
pub fn parse_str_line(s: &[u8], i: usize) -> (r: Result<(usize, Vec<u8>), ParseError>)
    requires
        i <= s@.len(),
    ensures
        vres(r) == spec_parse_str_line(s@, i as int),
        r matches Ok(t) ==> i <= t.0 <= s@.len(),
{
    let a = scan(s, i, ByteClass::Space);
    let e = find_crlf(s, a);
    if e == s.len() {
        Err(ParseError::Incomplete)
    } else {
        Ok((e, copy_range(s, a, e)))
    }
}

} // verus!

verus! {

/// A parameter list: nothing unless a `;` stands at `i`; after it,
/// `key=value` or flag tokens separated by `;`, stopping before the first
/// reserved byte, which stays unconsumed.
pub fn parse_params(s: &[u8], i: usize) -> (r: Result<(usize, Params), ParseError>)
    requires
        i <= s@.len(),
    ensures
        lres(r) == spec_parse_params(s@, i as int),
        r matches Ok(t) ==> i <= t.0 <= s@.len(),
{
    if i == s.len() {
        return Err(ParseError::Incomplete);
    }
    if s[i] != 59 {
        let out: Params = Vec::new();
        proof {
            assert(out.deep_view() =~= Seq::<Seq<u8>>::empty());
        }
        return Ok((i, out));
    }
    let mut out: Params = Vec::new();
    let mut cur: usize = i + 1;
    proof {
        match spec_param_items(s@, i + 1) {
            Ok((e, rest)) => {
                assert(out.deep_view() + rest =~= rest);
            },
            Err(_) => {},
        }
    }
    loop
        invariant
            i < s@.len(),
            i + 1 <= cur <= s@.len(),
            s@[i as int] == 59,
            spec_parse_params(s@, i as int) == (match spec_param_items(s@, cur as int) {
                Ok((e, rest)) => Ok::<(int, Seq<Seq<u8>>), PErr>((e, out.deep_view() + rest)),
                Err(er) => Err(er),
            }),
        decreases s@.len() - cur,
    {
        if cur == s.len() {
            return Err(ParseError::Incomplete);
        }
        if crate::is_reserved_char(s[cur]) {
            proof {
                assert(out.deep_view() + Seq::<Seq<u8>>::empty() =~= out.deep_view());
            }
            return Ok((cur, out));
        }
        let j = scan(s, cur, ByteClass::Param);
        proof {
            crate::scan::lemma_run_end(s@, cur as int, ByteClass::Param);
        }
        let tok = copy_range(s, cur, j);
        let p2 = if j < s.len() && s[j] == 59 {
            j + 1
        } else {
            j
        };
        if p2 <= cur {
            return Err(ParseError::Syntax { rule: Rule::List, pos: cur });
        }
        let ghost pre = out.deep_view();
        out.push(tok);
        proof {
            assert(out.deep_view() =~~= pre.push(tok@));
            match spec_param_items(s@, p2 as int) {
                Ok((e, rest)) => {
                    assert(pre + (seq![tok@] + rest) =~= out.deep_view() + rest);
                },
                Err(_) => {},
            }
        }
        cur = p2;
    }
}

/// Skip spaces and tabs, then read a comma-separated token list up to a
/// CRLF left unconsumed.  The list may be empty.
pub fn parse_str_list(s: &[u8], i: usize) -> (r: Result<(usize, Vec<Vec<u8>>), ParseError>)
    requires
        i <= s@.len(),
    ensures
        lres(r) == spec_parse_str_list(s@, i as int),
        r matches Ok(t) ==> i <= t.0 <= s@.len(),
{
    let start = scan(s, i, ByteClass::Space);
    let mut out: Vec<Vec<u8>> = Vec::new();
    let mut cur: usize = start;
    proof {
        match spec_str_items(s@, start as int) {
            Ok((e, rest)) => {
                assert(out.deep_view() + rest =~= rest);
            },
            Err(_) => {},
        }
    }
    loop
        invariant
            i <= start <= cur <= s@.len(),
            spec_parse_str_list(s@, i as int) == (match spec_str_items(s@, cur as int) {
                Ok((e, rest)) => Ok::<(int, Seq<Seq<u8>>), PErr>((e, out.deep_view() + rest)),
                Err(er) => Err(er),
            }),
        decreases s@.len() - cur,
    {
        if s.len() - cur >= 2 && s[cur] == 13 && s[cur + 1] == 10 {
            proof {
                assert(out.deep_view() + Seq::<Seq<u8>>::empty() =~= out.deep_view());
            }
            return Ok((cur, out));
        }
        if s.len() - cur < 2 {
            return Err(ParseError::Incomplete);
        }
        let (p1, tok) = parse_str(s, cur);
        let p2 = if p1 < s.len() && s[p1] == 44 {
            p1 + 1
        } else {
            p1
        };
        if p2 <= cur {
            return Err(ParseError::Syntax { rule: Rule::List, pos: cur });
        }
        let ghost pre = out.deep_view();
        out.push(tok);
        proof {
            assert(out.deep_view() =~~= pre.push(tok@));
            match spec_str_items(s@, p2 as int) {
                Ok((e, rest)) => {
                    assert(pre + (seq![tok@] + rest) =~= out.deep_view() + rest);
                },
                Err(_) => {},
            }
        }
        cur = p2;
    }
}

/// A host up to the first `:`, then the port digits.
pub fn parse_sock_addr(s: &[u8], i: usize) -> (r: Result<(usize, SockAddr), ParseError>)
    requires
        i <= s@.len(),
    ensures
        vres(r) == spec_parse_sock_addr(s@, i as int),
        r matches Ok(t) ==> i <= t.0 <= s@.len(),
{
    let j = scan(s, i, ByteClass::NotColon);
    if j == s.len() {
        return Err(ParseError::Incomplete);
    }
    let addr = copy_range(s, i, j);
    let (e, port) = parse_u32(s, j + 1);
    Ok((e, SockAddr { addr, port }))
}

} // verus!

verus! {

/// How a display name was written; see [`crate::grammar::AliasV`].
#[derive(Debug, PartialEq, Eq)]
pub enum Alias {
    NoAlias,
    Quoted(Vec<u8>),
    Bare(Vec<u8>),
}

impl View for Alias {
    type V = crate::grammar::AliasV;

    open spec fn view(&self) -> crate::grammar::AliasV {
        match *self {
            Alias::NoAlias => crate::grammar::AliasV::NoAlias,
            Alias::Quoted(ref x) => crate::grammar::AliasV::Quoted(x@),
            Alias::Bare(ref x) => crate::grammar::AliasV::Bare(x@),
        }
    }
}

/// Read an optional display name: a quote-delimited string when a closing
/// quote follows, else the text standing before a `<` on the same line
/// (the `<` stays), else nothing.
pub fn scan_alias(s: &[u8], i: usize) -> (r: (usize, Alias))
    requires
        i <= s@.len(),
    ensures
        (r.0 as int, r.1@) == crate::grammar::spec_alias(s@, i as int),
        i <= r.0 <= s@.len(),
{
    if i < s.len() && s[i] == 34 {
        let q = scan(s, i + 1, ByteClass::NotQuote);
        if q < s.len() {
            return (q + 1, Alias::Quoted(copy_range(s, i + 1, q)));
        }
    }
    let j = scan(s, i, ByteClass::AliasText);
    if j < s.len() && s[j] == 60 {
        (j, Alias::Bare(copy_range(s, i, j)))
    } else {
        (i, Alias::NoAlias)
    }
}

/// The angle-bracketed address form; parameters inside the brackets
/// belong to the address itself.
pub fn parse_uri_with_params(s: &[u8], i: usize) -> (r: Result<(usize, URI), ParseError>)
    requires
        i <= s@.len(),
    ensures
        vres(r) == spec_parse_uri_with_params(s@, i as int),
        r matches Ok(t) ==> i <= t.0 <= s@.len(),
{
    if i == s.len() {
        return Err(ParseError::Incomplete);
    }
    if s[i] != 60 {
        return Err(ParseError::Syntax { rule: Rule::AngleOpen, pos: i });
    }
    let j = scan(s, i + 1, ByteClass::NotColon);
    if j == s.len() {
        return Err(ParseError::Incomplete);
    }
    let protocol = copy_range(s, i + 1, j);
    let k = scan(s, j + 1, ByteClass::UriExt);
    if k == s.len() {
        return Err(ParseError::Incomplete);
    }
    let extension = copy_range(s, j + 1, k);
    let mut p3 = k;
    let mut domain: Option<Vec<u8>> = None;
    if s[k] == 64 {
        let m = scan(s, k + 1, ByteClass::UriDom);
        if m == s.len() {
            return Err(ParseError::Incomplete);
        }
        if m > k + 1 {
            domain = Some(copy_range(s, k + 1, m));
        }
        p3 = m;
    }
    let mut p4 = p3;
    let mut port: Option<u32> = None;
    if p3 < s.len() && s[p3] == 58 {
        let (q, v) = parse_u32(s, p3 + 1);
        p4 = q;
        port = Some(v);
    }
    match parse_params(s, p4) {
        Err(e) => Err(e),
        Ok((p5, params)) => {
            if p5 == s.len() {
                Err(ParseError::Incomplete)
            } else if s[p5] != 62 {
                Err(ParseError::Syntax { rule: Rule::AngleClose, pos: p5 })
            } else {
                Ok((p5 + 1, URI { protocol, extension, domain, port, params }))
            }
        },
    }
}

/// The bare address form: no brackets and no parameters of its own; the
/// domain runs to the first reserved byte.
pub fn parse_uri_wo_params(s: &[u8], i: usize) -> (r: Result<(usize, URI), ParseError>)
    requires
        i <= s@.len(),
    ensures
        vres(r) == spec_parse_uri_wo_params(s@, i as int),
        r matches Ok(t) ==> i <= t.0 <= s@.len(),
{
    let j = scan(s, i, ByteClass::NotColon);
    if j == s.len() {
        return Err(ParseError::Incomplete);
    }
    let protocol = copy_range(s, i, j);
    let k = scan(s, j + 1, ByteClass::UriExt);
    if k == s.len() {
        return Err(ParseError::Incomplete);
    }
    let extension = copy_range(s, j + 1, k);
    let mut p3 = k;
    let mut domain: Option<Vec<u8>> = None;
    if s[k] == 64 {
        let m = scan(s, k + 1, ByteClass::NotReserved);
        if m > k + 1 {
            domain = Some(copy_range(s, k + 1, m));
        }
        p3 = m;
    }
    let mut p4 = p3;
    let mut port: Option<u32> = None;
    if p3 < s.len() && s[p3] == 58 {
        let (q, v) = parse_u32(s, p3 + 1);
        p4 = q;
        port = Some(v);
    }
    let params: Params = Vec::new();
    proof {
        assert(params.deep_view() =~= Seq::<Seq<u8>>::empty());
    }
    Ok((p4, URI { protocol, extension, domain, port, params }))
}

/// The request-line address form: brackets optional on both sides, the
/// parameter list always read.
pub fn parse_uri(s: &[u8], i: usize) -> (r: Result<(usize, URI), ParseError>)
    requires
        i <= s@.len(),
    ensures
        vres(r) == spec_parse_uri(s@, i as int),
        r matches Ok(t) ==> i <= t.0 <= s@.len(),
{
    let i1 = if i < s.len() && s[i] == 60 {
        i + 1
    } else {
        i
    };
    let j = scan(s, i1, ByteClass::NotColon);
    if j == s.len() {
        return Err(ParseError::Incomplete);
    }
    let protocol = copy_range(s, i1, j);
    let k = scan(s, j + 1, ByteClass::UriExt);
    if k == s.len() {
        return Err(ParseError::Incomplete);
    }
    let extension = copy_range(s, j + 1, k);
    let mut p3 = k;
    let mut domain: Option<Vec<u8>> = None;
    if s[k] == 64 {
        let m = scan(s, k + 1, ByteClass::UriDom);
        if m == s.len() {
            return Err(ParseError::Incomplete);
        }
        if m > k + 1 {
            domain = Some(copy_range(s, k + 1, m));
        }
        p3 = m;
    }
    let mut p4 = p3;
    let mut port: Option<u32> = None;
    if p3 < s.len() && s[p3] == 58 {
        let (q, v) = parse_u32(s, p3 + 1);
        p4 = q;
        port = Some(v);
    }
    match parse_params(s, p4) {
        Err(e) => Err(e),
        Ok((p5, params)) => {
            let p6 = if p5 < s.len() && s[p5] == 62 {
                p5 + 1
            } else {
                p5
            };
            Ok((p6, URI { protocol, extension, domain, port, params }))
        },
    }
}

/// A contact address: spaces, optional display name, spaces, the address
/// (bracketed form first, bare form on its syntax failure), then the
/// header's own parameter list.  A quoted display name is kept even when
/// empty; unquoted text before `<` counts only when nonempty.
pub fn parse_contact(s: &[u8], i: usize) -> (r: Result<(usize, ContactInfo), ParseError>)
    requires
        i <= s@.len(),
    ensures
        vres(r) == spec_parse_contact_info(s@, i as int),
        r matches Ok(t) ==> i <= t.0 <= s@.len(),
{
    let a = scan(s, i, ByteClass::Space);
    let (p1, al) = scan_alias(s, a);
    let p2 = scan(s, p1, ByteClass::Space);
    let urires = match parse_uri_with_params(s, p2) {
        Ok(u) => Ok(u),
        Err(ParseError::Incomplete) => Err(ParseError::Incomplete),
        Err(_) => parse_uri_wo_params(s, p2),
    };
    match urires {
        Err(e) => Err(e),
        Ok((p3, uri)) => match parse_params(s, p3) {
            Err(e) => Err(e),
            Ok((p4, params)) => {
                let alias: Option<Vec<u8>> = match al {
                    Alias::NoAlias => None,
                    Alias::Quoted(x) => Some(x),
                    Alias::Bare(x) => {
                        if x.len() == 0 {
                            None
                        } else {
                            Some(x)
                        }
                    },
                };
                Ok((p4, ContactInfo { alias, uri, params }))
            },
        },
    }
}

} // verus!
