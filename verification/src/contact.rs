//! The flattened contact form: one struct carrying display name, address
//! parts and parameters side by side, with the port kept as its raw
//! digits.  [`parse_contact`] consumes the whole line, terminating CRLF
//! included.

use vstd::prelude::*;

use crate::grammar::{spec_legacy_params, spec_parse_contact_legacy, ContactV, PErr, Rule};
use crate::header::types::{scan_alias, vres, Alias, ParseError};
use crate::scan::{copy_range, scan, ByteClass};

verus! {

/// A contact line, flattened: optional display name, address parts, and
/// the trailing parameters.
#[derive(Debug, PartialEq, Eq)]
pub struct Contact {
    pub alias: Option<Vec<u8>>,
    pub protocol: Vec<u8>,
    pub extension: Vec<u8>,
    pub domain: Option<Vec<u8>>,
    pub port: Option<Vec<u8>>,
    pub params: Vec<Vec<u8>>,
}

impl View for Contact {
    type V = ContactV;

    open spec fn view(&self) -> ContactV {
        ContactV {
            alias: match self.alias {
                Some(ref a) => Some(a@),
                None => None,
            },
            protocol: self.protocol@,
            extension: self.extension@,
            domain: match self.domain {
                Some(ref d) => Some(d@),
                None => None,
            },
            port: match self.port {
                Some(ref p) => Some(p@),
                None => None,
            },
            params: self.params.deep_view(),
        }
    }
}

/// The trailing parameter items of a contact line, consuming the CRLF
/// that ends the line.
fn legacy_params(s: &[u8], i: usize) -> (r: Result<(usize, Vec<Vec<u8>>), ParseError>)
    requires
        i <= s@.len(),
    ensures
        crate::header::types::lres(r) == spec_legacy_params(s@, i as int),
        r matches Ok(t) ==> i <= t.0 <= s@.len(),
{
    let mut out: Vec<Vec<u8>> = Vec::new();
    let mut cur: usize = i;
    proof {
        match spec_legacy_params(s@, i as int) {
            Ok((e, rest)) => {
                assert(out.deep_view() + rest =~= rest);
            },
            Err(_) => {},
        }
    }
    loop
        invariant
            i <= cur <= s@.len(),
            spec_legacy_params(s@, i as int) == (match spec_legacy_params(s@, cur as int) {
                Ok((e, rest)) => Ok::<(int, Seq<Seq<u8>>), PErr>((e, out.deep_view() + rest)),
                Err(er) => Err(er),
            }),
        decreases s@.len() - cur,
    {
        if s.len() - cur >= 2 && s[cur] == 13 && s[cur + 1] == 10 {
            proof {
                assert(out.deep_view() + Seq::<Seq<u8>>::empty() =~= out.deep_view());
            }
            return Ok((cur + 2, out));
        }
        if s.len() - cur < 2 {
            return Err(ParseError::Incomplete);
        }
        let j = scan(s, cur, ByteClass::Param);
        let tok = copy_range(s, cur, j);
        let p2 = if j < s.len() && s[j] == 59 {
            j + 1
        } else {
            j
        };
        if p2 <= cur {
            return Err(ParseError::Syntax { rule: Rule::List, pos: cur });
        }
        let ghost pre = out.deep_view();
        out.push(tok);
        proof {
            assert(out.deep_view() =~~= pre.push(s@.subrange(cur as int, j as int)));
            match spec_legacy_params(s@, p2 as int) {
                Ok((e, rest)) => {
                    assert(pre + (seq![s@.subrange(cur as int, j as int)] + rest) =~= out.deep_view()
                        + rest);
                },
                Err(_) => {},
            }
        }
        cur = p2;
    }
}

/// A whole contact line: optional display name (kept even when empty),
/// spaces, optional `<`, scheme, user part, optional domain and raw port
/// digits, optional `>` and `;`, then parameters up to and including the
/// CRLF.
pub fn parse_contact(s: &[u8], i: usize) -> (r: Result<(usize, Contact), ParseError>)
    requires
        i <= s@.len(),
    ensures
        vres(r) == spec_parse_contact_legacy(s@, i as int),
        r matches Ok(t) ==> i <= t.0 <= s@.len(),
{
    let (p1, al) = scan_alias(s, i);
    let p2 = scan(s, p1, ByteClass::Space);
    let p3 = if p2 < s.len() && s[p2] == 60 {
        p2 + 1
    } else {
        p2
    };
    let j = scan(s, p3, ByteClass::NotColon);
    if j == s.len() {
        return Err(ParseError::Incomplete);
    }
    let protocol = copy_range(s, p3, j);
    let k = scan(s, j + 1, ByteClass::UriExt);
    if k == s.len() {
        return Err(ParseError::Incomplete);
    }
    let extension = copy_range(s, j + 1, k);
    let mut p4 = k;
    let mut domain: Option<Vec<u8>> = None;
    if s[k] == 64 {
        let m = scan(s, k + 1, ByteClass::UriDom);
        if m == s.len() {
            return Err(ParseError::Incomplete);
        }
        domain = Some(copy_range(s, k + 1, m));
        p4 = m;
    }
    let mut p5 = p4;
    let mut port: Option<Vec<u8>> = None;
    if p4 < s.len() && s[p4] == 58 {
        let d = scan(s, p4 + 1, ByteClass::Digit);
        port = Some(copy_range(s, p4 + 1, d));
        p5 = d;
    }
    let p6 = if p5 < s.len() && s[p5] == 62 {
        p5 + 1
    } else {
        p5
    };
    let p7 = if p6 < s.len() && s[p6] == 59 {
        p6 + 1
    } else {
        p6
    };
    match legacy_params(s, p7) {
        Err(er) => Err(er),
        Ok((e, params)) => {
            let alias: Option<Vec<u8>> = match al {
                Alias::NoAlias => None,
                Alias::Quoted(x) => Some(x),
                Alias::Bare(x) => Some(x),
            };
            Ok((e, Contact { alias, protocol, extension, domain, port, params }))
        },
    }
}

} // verus!
