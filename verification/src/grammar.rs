//! The functional model of the SIP grammar.
//!
//! Every function here is a mathematical description of one grammar rule:
//! it maps the input bytes and a start position to either the end position
//! and the parsed value, or the error the rule stops with.  The executable
//! parsers in [`crate::header`] and [`crate::contact`] are proved to return
//! exactly what these functions say.
//!
//! Positions move only forward.  A rule that scans a run of bytes (spaces,
//! digits, token characters) simply stops at the end of the input, as the
//! grammar of complete messages never needs more; a rule that must still
//! find a delimiter or literal when the input ends stops with
//! [`PErr::Incomplete`].

use vstd::prelude::*;

use crate::scan::{crlf_end, run_end, str_as_bytes, ByteClass};
use crate::spec_is_reserved;

verus! {

/// The grammar rule a syntax failure names.
#[derive(Clone, Copy, Debug, PartialEq, Eq, Structural)]
pub enum Rule {
    /// A `<` was required.
    AngleOpen,
    /// A `>` was required.
    AngleClose,
    /// A single space was required.
    Blank,
    /// A CRLF line end was required.
    Crlf,
    /// The literal `SIP/2.0/` was required.
    SipVersion,
    /// The literal `Digest ` was required.
    Digest,
    /// A repetition made no progress before its terminator.
    List,
}

/// Why a parse stopped: a rule failed at a position, or the input ended
/// before a required delimiter or literal.
pub ghost enum PErr {
    Incomplete,
    Syntax { rule: Rule, pos: int },
}

/// The value of a run of decimal digits, most significant first.
pub open spec fn dec_val(d: Seq<u8>) -> int
    decreases d.len(),
{
    if d.len() == 0 {
        0
    } else {
        10 * dec_val(d.drop_last()) + (d.last() - 48)
    }
}

/// The digit run read as a `u32`; a run whose value does not fit gives 0,
/// as does an empty run.
pub open spec fn u32_from_digits(d: Seq<u8>) -> u32 {
    if dec_val(d) <= u32::MAX {
        dec_val(d) as u32
    } else {
        0
    }
}

/// A host and port, as in a `Via` header.
pub ghost struct SockAddrV {
    pub addr: Seq<u8>,
    pub port: u32,
}

/// A SIP address: scheme, user part, optional host, optional numeric port,
/// and the parameters that belong to the address itself.
pub ghost struct UriV {
    pub protocol: Seq<u8>,
    pub extension: Seq<u8>,
    pub domain: Option<Seq<u8>>,
    pub port: Option<u32>,
    pub params: Seq<Seq<u8>>,
}

/// A contact address: optional display name, address, and the parameters
/// that belong to the surrounding header rather than the address.
pub ghost struct ContactInfoV {
    pub alias: Option<Seq<u8>>,
    pub uri: UriV,
    pub params: Seq<Seq<u8>>,
}

/// The flattened contact shape, with the port kept as its raw digits.
pub ghost struct ContactV {
    pub alias: Option<Seq<u8>>,
    pub protocol: Seq<u8>,
    pub extension: Seq<u8>,
    pub domain: Option<Seq<u8>>,
    pub port: Option<Seq<u8>>,
    pub params: Seq<Seq<u8>>,
}

/// How a display name was written, before the header decides what an
/// absent or empty name means.
pub ghost enum AliasV {
    /// No quote and no `<` on the line: no display name at all.
    NoAlias,
    /// A quote-delimited name; may be empty.
    Quoted(Seq<u8>),
    /// Unquoted text standing before a `<`; may be empty.
    Bare(Seq<u8>),
}

/// Skip spaces and tabs, then read the maximal digit run.
/// Never fails: an empty or oversized run reads as 0.
pub open spec fn spec_parse_u32(s: Seq<u8>, i: int) -> (int, u32) {
    let a = run_end(s, i, ByteClass::Space);
    let b = run_end(s, a, ByteClass::Digit);
    (b, u32_from_digits(s.subrange(a, b)))
}

/// Skip spaces and tabs, then read one token: either a quote-delimited
/// string, or the maximal run of bytes that are not space, comma,
/// semicolon, CR or LF.  A quote with no closing quote falls back to the
/// bare form, quote included.  Never fails; the token may be empty.
pub open spec fn spec_parse_str(s: Seq<u8>, i: int) -> (int, Seq<u8>) {
    let a = run_end(s, i, ByteClass::Space);
    if a < s.len() && s[a] == 34 {
        let q = run_end(s, a + 1, ByteClass::NotQuote);
        if q < s.len() {
            (q + 1, s.subrange(a + 1, q))
        } else {
            let e = run_end(s, a, ByteClass::Token);
            (e, s.subrange(a, e))
        }
    } else {
        let e = run_end(s, a, ByteClass::Token);
        (e, s.subrange(a, e))
    }
}

/// Skip spaces and tabs, then take everything up to the next CRLF, which
/// stays unconsumed.  Fails as incomplete when no CRLF follows.
pub open spec fn spec_parse_str_line(s: Seq<u8>, i: int) -> Result<(int, Seq<u8>), PErr> {
    let a = run_end(s, i, ByteClass::Space);
    let e = crlf_end(s, a);
    if e == s.len() {
        Err(PErr::Incomplete)
    } else {
        Ok((e, s.subrange(a, e)))
    }
}

/// The comma-separated items of a token list, up to a CRLF left
/// unconsumed.  An iteration that consumes nothing is a syntax failure,
/// and an input that ends before the CRLF is incomplete.
pub open spec fn spec_str_items(s: Seq<u8>, i: int) -> Result<(int, Seq<Seq<u8>>), PErr>
    decreases s.len() - i,
{
    if !(0 <= i <= s.len()) {
        Err(PErr::Incomplete)
    } else if i + 2 <= s.len() && s[i] == 13 && s[i + 1] == 10 {
        Ok((i, Seq::empty()))
    } else if i + 2 > s.len() {
        Err(PErr::Incomplete)
    } else {
        let (p1, tok) = spec_parse_str(s, i);
        let p2 = if p1 < s.len() && s[p1] == 44 {
            p1 + 1
        } else {
            p1
        };
        if i < p2 <= s.len() {
            match spec_str_items(s, p2) {
                Ok((e, rest)) => Ok((e, seq![tok] + rest)),
                Err(er) => Err(er),
            }
        } else {
            Err(PErr::Syntax { rule: Rule::List, pos: i })
        }
    }
}

/// Skip spaces and tabs, then read a comma-separated token list up to a
/// CRLF left unconsumed.  The list may be empty.
pub open spec fn spec_parse_str_list(s: Seq<u8>, i: int) -> Result<(int, Seq<Seq<u8>>), PErr> {
    spec_str_items(s, run_end(s, i, ByteClass::Space))
}

/// The semicolon-separated items of a parameter list, up to the first
/// reserved byte, which stays unconsumed.
pub open spec fn spec_param_items(s: Seq<u8>, i: int) -> Result<(int, Seq<Seq<u8>>), PErr>
    decreases s.len() - i,
{
    if !(0 <= i <= s.len()) {
        Err(PErr::Incomplete)
    } else if i == s.len() {
        Err(PErr::Incomplete)
    } else if spec_is_reserved(s[i]) {
        Ok((i, Seq::empty()))
    } else {
        let j = run_end(s, i, ByteClass::Param);
        let p2 = if j < s.len() && s[j] == 59 {
            j + 1
        } else {
            j
        };
        if i < p2 <= s.len() {
            match spec_param_items(s, p2) {
                Ok((e, rest)) => Ok((e, seq![s.subrange(i, j)] + rest)),
                Err(er) => Err(er),
            }
        } else {
            Err(PErr::Syntax { rule: Rule::List, pos: i })
        }
    }
}

/// A parameter list: nothing at all unless a `;` stands at `i`; after the
/// `;`, parameter tokens (`=` allowed inside) separated by `;`, stopping
/// before the first reserved byte, which stays unconsumed.
pub open spec fn spec_parse_params(s: Seq<u8>, i: int) -> Result<(int, Seq<Seq<u8>>), PErr> {
    if i >= s.len() {
        Err(PErr::Incomplete)
    } else if s[i] != 59 {
        Ok((i, Seq::empty()))
    } else {
        spec_param_items(s, i + 1)
    }
}

/// A host up to the first `:`, then the port digits.
pub open spec fn spec_parse_sock_addr(s: Seq<u8>, i: int) -> Result<(int, SockAddrV), PErr> {
    let j = run_end(s, i, ByteClass::NotColon);
    if j == s.len() {
        Err(PErr::Incomplete)
    } else {
        let (e, port) = spec_parse_u32(s, j + 1);
        Ok((e, SockAddrV { addr: s.subrange(i, j), port }))
    }
}

/// The angle-bracketed address form: `<protocol:extension[@domain][:port][;params]>`.
/// Parameters inside the brackets belong to the address itself.  An empty
/// domain after `@` counts as absent.
pub open spec fn spec_parse_uri_with_params(s: Seq<u8>, i: int) -> Result<(int, UriV), PErr> {
    if i >= s.len() {
        Err(PErr::Incomplete)
    } else if s[i] != 60 {
        Err(PErr::Syntax { rule: Rule::AngleOpen, pos: i })
    } else {
        let j = run_end(s, i + 1, ByteClass::NotColon);
        if j == s.len() {
            Err(PErr::Incomplete)
        } else {
            let k = run_end(s, j + 1, ByteClass::UriExt);
            if k == s.len() {
                Err(PErr::Incomplete)
            } else if s[k] == 64 && run_end(s, k + 1, ByteClass::UriDom) == s.len() {
                Err(PErr::Incomplete)
            } else {
                let p3 = if s[k] == 64 {
                    run_end(s, k + 1, ByteClass::UriDom)
                } else {
                    k
                };
                let domain = if s[k] == 64 && p3 > k + 1 {
                    Some(s.subrange(k + 1, p3))
                } else {
                    None::<Seq<u8>>
                };
                let (p4, port) = if p3 < s.len() && s[p3] == 58 {
                    let (q, v) = spec_parse_u32(s, p3 + 1);
                    (q, Some(v))
                } else {
                    (p3, None::<u32>)
                };
                match spec_parse_params(s, p4) {
                    Err(er) => Err(er),
                    Ok((p5, params)) => {
                        if p5 >= s.len() {
                            Err(PErr::Incomplete)
                        } else if s[p5] != 62 {
                            Err(PErr::Syntax { rule: Rule::AngleClose, pos: p5 })
                        } else {
                            Ok(
                                (
                                    p5 + 1,
                                    UriV {
                                        protocol: s.subrange(i + 1, j),
                                        extension: s.subrange(j + 1, k),
                                        domain,
                                        port,
                                        params,
                                    },
                                ),
                            )
                        }
                    },
                }
            }
        }
    }
}

/// The bare address form: as the bracketed form but without brackets, the
/// domain running to the first reserved byte, and no parameters: in bare
/// form trailing parameters belong to the surrounding header.
pub open spec fn spec_parse_uri_wo_params(s: Seq<u8>, i: int) -> Result<(int, UriV), PErr> {
    let j = run_end(s, i, ByteClass::NotColon);
    if j == s.len() {
        Err(PErr::Incomplete)
    } else {
        let k = run_end(s, j + 1, ByteClass::UriExt);
        if k == s.len() {
            Err(PErr::Incomplete)
        } else {
            let p3 = if s[k] == 64 {
                run_end(s, k + 1, ByteClass::NotReserved)
            } else {
                k
            };
            let domain = if s[k] == 64 && p3 > k + 1 {
                Some(s.subrange(k + 1, p3))
            } else {
                None::<Seq<u8>>
            };
            let (p4, port) = if p3 < s.len() && s[p3] == 58 {
                let (q, v) = spec_parse_u32(s, p3 + 1);
                (q, Some(v))
            } else {
                (p3, None::<u32>)
            };
            Ok(
                (
                    p4,
                    UriV {
                        protocol: s.subrange(i, j),
                        extension: s.subrange(j + 1, k),
                        domain,
                        port,
                        params: Seq::empty(),
                    },
                ),
            )
        }
    }
}

/// The request-line address form: brackets optional on both sides, and the
/// parameter list always read.
pub open spec fn spec_parse_uri(s: Seq<u8>, i: int) -> Result<(int, UriV), PErr> {
    let i1 = if i < s.len() && s[i] == 60 {
        i + 1
    } else {
        i
    };
    let j = run_end(s, i1, ByteClass::NotColon);
    if j == s.len() {
        Err(PErr::Incomplete)
    } else {
        let k = run_end(s, j + 1, ByteClass::UriExt);
        if k == s.len() {
            Err(PErr::Incomplete)
        } else if s[k] == 64 && run_end(s, k + 1, ByteClass::UriDom) == s.len() {
            Err(PErr::Incomplete)
        } else {
            let p3 = if s[k] == 64 {
                run_end(s, k + 1, ByteClass::UriDom)
            } else {
                k
            };
            let domain = if s[k] == 64 && p3 > k + 1 {
                Some(s.subrange(k + 1, p3))
            } else {
                None::<Seq<u8>>
            };
            let (p4, port) = if p3 < s.len() && s[p3] == 58 {
                let (q, v) = spec_parse_u32(s, p3 + 1);
                (q, Some(v))
            } else {
                (p3, None::<u32>)
            };
            match spec_parse_params(s, p4) {
                Err(er) => Err(er),
                Ok((p5, params)) => {
                    let p6 = if p5 < s.len() && s[p5] == 62 {
                        p5 + 1
                    } else {
                        p5
                    };
                    Ok(
                        (
                            p6,
                            UriV {
                                protocol: s.subrange(i1, j),
                                extension: s.subrange(j + 1, k),
                                domain,
                                port,
                                params,
                            },
                        ),
                    )
                },
            }
        }
    }
}

/// An optional display name: a quote-delimited string if the input starts
/// with a quote and a closing quote follows; otherwise the text before a
/// `<` standing on the same line, the `<` left unconsumed; otherwise
/// nothing.  Never fails.
pub open spec fn spec_alias(s: Seq<u8>, i: int) -> (int, AliasV) {
    if i < s.len() && s[i] == 34 && run_end(s, i + 1, ByteClass::NotQuote) < s.len() {
        let q = run_end(s, i + 1, ByteClass::NotQuote);
        (q + 1, AliasV::Quoted(s.subrange(i + 1, q)))
    } else {
        let j = run_end(s, i, ByteClass::AliasText);
        if j < s.len() && s[j] == 60 {
            (j, AliasV::Bare(s.subrange(i, j)))
        } else {
            (i, AliasV::NoAlias)
        }
    }
}

/// A contact address: spaces, optional display name, spaces, then the
/// address (bracketed form first, bare form on its syntax failure), then
/// the header's own parameter list.  A quoted display name is kept even
/// when empty; unquoted text before `<` counts only when nonempty.
pub open spec fn spec_parse_contact_info(s: Seq<u8>, i: int) -> Result<(int, ContactInfoV), PErr> {
    let a = run_end(s, i, ByteClass::Space);
    let (p1, al) = spec_alias(s, a);
    let p2 = run_end(s, p1, ByteClass::Space);
    let urires = match spec_parse_uri_with_params(s, p2) {
        Ok(r) => Ok(r),
        Err(PErr::Incomplete) => Err(PErr::Incomplete),
        Err(_) => spec_parse_uri_wo_params(s, p2),
    };
    match urires {
        Err(er) => Err(er),
        Ok((p3, uri)) => match spec_parse_params(s, p3) {
            Err(er) => Err(er),
            Ok((p4, params)) => Ok(
                (
                    p4,
                    ContactInfoV {
                        alias: match al {
                            AliasV::NoAlias => None,
                            AliasV::Quoted(x) => Some(x),
                            AliasV::Bare(x) => if x.len() == 0 {
                                None
                            } else {
                                Some(x)
                            },
                        },
                        uri,
                        params,
                    },
                ),
            ),
        },
    }
}

/// The parameter items of the flattened contact form, consuming the
/// terminating CRLF.
pub open spec fn spec_legacy_params(s: Seq<u8>, i: int) -> Result<(int, Seq<Seq<u8>>), PErr>
    decreases s.len() - i,
{
    if !(0 <= i <= s.len()) {
        Err(PErr::Incomplete)
    } else if i + 2 <= s.len() && s[i] == 13 && s[i + 1] == 10 {
        Ok((i + 2, Seq::empty()))
    } else if i + 2 > s.len() {
        Err(PErr::Incomplete)
    } else {
        let j = run_end(s, i, ByteClass::Param);
        let p2 = if j < s.len() && s[j] == 59 {
            j + 1
        } else {
            j
        };
        if i < p2 <= s.len() {
            match spec_legacy_params(s, p2) {
                Ok((e, rest)) => Ok((e, seq![s.subrange(i, j)] + rest)),
                Err(er) => Err(er),
            }
        } else {
            Err(PErr::Syntax { rule: Rule::List, pos: i })
        }
    }
}

/// The flattened contact form: optional display name (kept even when
/// empty), spaces, optional `<`, scheme, user part, optional domain and
/// raw port digits, optional `>` and `;`, then parameters up to and
/// including the CRLF.
pub open spec fn spec_parse_contact_legacy(s: Seq<u8>, i: int) -> Result<(int, ContactV), PErr> {
    let (p1, al) = spec_alias(s, i);
    let p2 = run_end(s, p1, ByteClass::Space);
    let p3 = if p2 < s.len() && s[p2] == 60 {
        p2 + 1
    } else {
        p2
    };
    let j = run_end(s, p3, ByteClass::NotColon);
    if j == s.len() {
        Err(PErr::Incomplete)
    } else {
        let k = run_end(s, j + 1, ByteClass::UriExt);
        if k == s.len() {
            Err(PErr::Incomplete)
        } else if s[k] == 64 && run_end(s, k + 1, ByteClass::UriDom) == s.len() {
            Err(PErr::Incomplete)
        } else {
            let p4 = if s[k] == 64 {
                run_end(s, k + 1, ByteClass::UriDom)
            } else {
                k
            };
            let domain = if s[k] == 64 {
                Some(s.subrange(k + 1, p4))
            } else {
                None::<Seq<u8>>
            };
            let (p5, port) = if p4 < s.len() && s[p4] == 58 {
                let d = run_end(s, p4 + 1, ByteClass::Digit);
                (d, Some(s.subrange(p4 + 1, d)))
            } else {
                (p4, None::<Seq<u8>>)
            };
            let p6 = if p5 < s.len() && s[p5] == 62 {
                p5 + 1
            } else {
                p5
            };
            let p7 = if p6 < s.len() && s[p6] == 59 {
                p6 + 1
            } else {
                p6
            };
            match spec_legacy_params(s, p7) {
                Err(er) => Err(er),
                Ok((e, params)) => Ok(
                    (
                        e,
                        ContactV {
                            alias: match al {
                                AliasV::NoAlias => None,
                                AliasV::Quoted(x) => Some(x),
                                AliasV::Bare(x) => Some(x),
                            },
                            protocol: s.subrange(p3, j),
                            extension: s.subrange(j + 1, k),
                            domain,
                            port,
                            params,
                        },
                    ),
                ),
            }
        }
    }
}

} // verus!

verus! {

/// One typed header occurrence.
pub ghost enum SipHeaderV {
    Contact(ContactInfoV),
    To(ContactInfoV),
    From(ContactInfoV),
    Expires(u32),
    MaxForwards(u32),
    ContentLength(u32),
    CallID(Seq<u8>),
    Accept(Seq<u8>),
    UserAgent(Seq<u8>),
    Event(Seq<u8>),
    Allow(Seq<Seq<u8>>),
    AllowEvents(Seq<Seq<u8>>),
    Supported(Seq<Seq<u8>>),
    Authorization(Seq<Seq<u8>>),
    WWWAuthenticate(Seq<Seq<u8>>),
    SessionID(Seq<u8>),
    Server(Seq<u8>),
    Date(Seq<u8>),
    ContentType(Seq<u8>),
    Require(Seq<Seq<u8>>),
    AcceptLanguage(Seq<u8>),
    MinSE(u32),
    SessionExpires { value: u32, params: Seq<Seq<u8>> },
    Via { protocol: Seq<u8>, addr: SockAddrV, params: Seq<Seq<u8>> },
    CSeq { seq: u32, header: Seq<u8> },
    Unknown { name: Seq<u8>, value: Seq<u8> },
}

/// The start line: one request variant per recognized method name, a
/// status-line variant, and a catch-all request for unknown methods.
pub ghost enum SipMethodV {
    Register { uri: UriV, version: Seq<u8> },
    Invite { uri: UriV, version: Seq<u8> },
    Subscribe { uri: UriV, version: Seq<u8> },
    Ack { uri: UriV, version: Seq<u8> },
    Cancel { uri: UriV, version: Seq<u8> },
    Bye { uri: UriV, version: Seq<u8> },
    Options { uri: UriV, version: Seq<u8> },
    Response { version: Seq<u8>, code: u32, reason: Seq<u8> },
    Unknown { method: Seq<u8>, uri: UriV, version: Seq<u8> },
}

/// A whole message: start line and headers in source order.
pub ghost struct SipMessageV {
    pub method: SipMethodV,
    pub headers: Seq<SipHeaderV>,
    pub content: Seq<Seq<u8>>,
}

/// Everything up to the next CRLF, taken verbatim; the CRLF stays.
pub open spec fn spec_line_value(s: Seq<u8>, p: int) -> Result<(int, Seq<u8>), PErr> {
    let e = crlf_end(s, p);
    if e == s.len() {
        Err(PErr::Incomplete)
    } else {
        Ok((e, s.subrange(p, e)))
    }
}

/// A `Via` value: spaces, the literal `SIP/2.0/`, the transport up to a
/// space or tab, one space, host and port, then parameters.
pub open spec fn spec_via_value(s: Seq<u8>, p: int) -> Result<(int, SipHeaderV), PErr> {
    let v0 = run_end(s, p, ByteClass::Space);
    if v0 + 8 > s.len() {
        Err(PErr::Incomplete)
    } else if !crate::scan::lit_at(s, v0, "SIP/2.0/"@) {
        Err(PErr::Syntax { rule: Rule::SipVersion, pos: v0 })
    } else {
        let t = run_end(s, v0 + 8, ByteClass::NotSpace);
        if t >= s.len() {
            Err(PErr::Incomplete)
        } else if s[t] != 32 {
            Err(PErr::Syntax { rule: Rule::Blank, pos: t })
        } else {
            match spec_parse_sock_addr(s, t + 1) {
                Err(er) => Err(er),
                Ok((p2, addr)) => match spec_parse_params(s, p2) {
                    Err(er) => Err(er),
                    Ok((p3, params)) => Ok(
                        (p3, SipHeaderV::Via { protocol: s.subrange(v0 + 8, t), addr, params }),
                    ),
                },
            }
        }
    }
}

/// A `CSeq` value: the sequence number, one space, the method token.
pub open spec fn spec_cseq_value(s: Seq<u8>, p: int) -> Result<(int, SipHeaderV), PErr> {
    let (p1, n) = spec_parse_u32(s, p);
    if p1 >= s.len() {
        Err(PErr::Incomplete)
    } else if s[p1] != 32 {
        Err(PErr::Syntax { rule: Rule::Blank, pos: p1 })
    } else {
        let (p2, h) = spec_parse_str(s, p1 + 1);
        Ok((p2, SipHeaderV::CSeq { seq: n, header: h }))
    }
}

/// A challenge or credential value: spaces, the literal `Digest `, then a
/// token list.
pub open spec fn spec_digest_value(s: Seq<u8>, p: int) -> Result<(int, Seq<Seq<u8>>), PErr> {
    let a = run_end(s, p, ByteClass::Space);
    if a + 7 > s.len() {
        Err(PErr::Incomplete)
    } else if !crate::scan::lit_at(s, a, "Digest "@) {
        Err(PErr::Syntax { rule: Rule::Digest, pos: a })
    } else {
        spec_parse_str_list(s, a + 7)
    }
}

/// Route a header value to its parser by the exact header name.
pub open spec fn spec_dispatch_header(s: Seq<u8>, name: Seq<u8>, p: int) -> Result<
    (int, SipHeaderV),
    PErr,
> {
    if name == str_as_bytes("Contact"@) {
        match spec_parse_contact_info(s, p) {
            Ok((e, c)) => Ok((e, SipHeaderV::Contact(c))),
            Err(er) => Err(er),
        }
    } else if name == str_as_bytes("To"@) {
        match spec_parse_contact_info(s, p) {
            Ok((e, c)) => Ok((e, SipHeaderV::To(c))),
            Err(er) => Err(er),
        }
    } else if name == str_as_bytes("From"@) {
        match spec_parse_contact_info(s, p) {
            Ok((e, c)) => Ok((e, SipHeaderV::From(c))),
            Err(er) => Err(er),
        }
    } else if name == str_as_bytes("Expires"@) {
        let (e, v) = spec_parse_u32(s, p);
        Ok((e, SipHeaderV::Expires(v)))
    } else if name == str_as_bytes("Max-Forwards"@) {
        let (e, v) = spec_parse_u32(s, p);
        Ok((e, SipHeaderV::MaxForwards(v)))
    } else if name == str_as_bytes("Content-Length"@) {
        let (e, v) = spec_parse_u32(s, p);
        Ok((e, SipHeaderV::ContentLength(v)))
    } else if name == str_as_bytes("Call-ID"@) {
        let (e, v) = spec_parse_str(s, p);
        Ok((e, SipHeaderV::CallID(v)))
    } else if name == str_as_bytes("CSeq"@) {
        spec_cseq_value(s, p)
    } else if name == str_as_bytes("Accept"@) {
        let (e, v) = spec_parse_str(s, p);
        Ok((e, SipHeaderV::Accept(v)))
    } else if name == str_as_bytes("User-Agent"@) {
        match spec_line_value(s, p) {
            Ok((e, v)) => Ok((e, SipHeaderV::UserAgent(v))),
            Err(er) => Err(er),
        }
    } else if name == str_as_bytes("Event"@) {
        let (e, v) = spec_parse_str(s, p);
        Ok((e, SipHeaderV::Event(v)))
    } else if name == str_as_bytes("Allow"@) {
        match spec_parse_str_list(s, p) {
            Ok((e, v)) => Ok((e, SipHeaderV::Allow(v))),
            Err(er) => Err(er),
        }
    } else if name == str_as_bytes("Allow-Events"@) {
        match spec_parse_str_list(s, p) {
            Ok((e, v)) => Ok((e, SipHeaderV::AllowEvents(v))),
            Err(er) => Err(er),
        }
    } else if name == str_as_bytes("Via"@) {
        spec_via_value(s, p)
    } else if name == str_as_bytes("Supported"@) {
        match spec_parse_str_list(s, p) {
            Ok((e, v)) => Ok((e, SipHeaderV::Supported(v))),
            Err(er) => Err(er),
        }
    } else if name == str_as_bytes("Authorization"@) {
        match spec_digest_value(s, p) {
            Ok((e, v)) => Ok((e, SipHeaderV::Authorization(v))),
            Err(er) => Err(er),
        }
    } else if name == str_as_bytes("Session-ID"@) {
        match spec_line_value(s, p) {
            Ok((e, v)) => Ok((e, SipHeaderV::SessionID(v))),
            Err(er) => Err(er),
        }
    } else if name == str_as_bytes("Server"@) {
        match spec_line_value(s, p) {
            Ok((e, v)) => Ok((e, SipHeaderV::Server(v))),
            Err(er) => Err(er),
        }
    } else if name == str_as_bytes("WWW-Authenticate"@) {
        match spec_digest_value(s, p) {
            Ok((e, v)) => Ok((e, SipHeaderV::WWWAuthenticate(v))),
            Err(er) => Err(er),
        }
    } else if name == str_as_bytes("Date"@) {
        match spec_line_value(s, p) {
            Ok((e, v)) => Ok((e, SipHeaderV::Date(v))),
            Err(er) => Err(er),
        }
    } else if name == str_as_bytes("Content-Type"@) {
        match spec_line_value(s, p) {
            Ok((e, v)) => Ok((e, SipHeaderV::ContentType(v))),
            Err(er) => Err(er),
        }
    } else if name == str_as_bytes("Session-Expires"@) {
        let (p1, v) = spec_parse_u32(s, p);
        match spec_parse_params(s, p1) {
            Ok((e, params)) => Ok((e, SipHeaderV::SessionExpires { value: v, params })),
            Err(er) => Err(er),
        }
    } else if name == str_as_bytes("Require"@) {
        match spec_parse_str_list(s, p) {
            Ok((e, v)) => Ok((e, SipHeaderV::Require(v))),
            Err(er) => Err(er),
        }
    } else if name == str_as_bytes("Accept-Language"@) {
        match spec_line_value(s, p) {
            Ok((e, v)) => Ok((e, SipHeaderV::AcceptLanguage(v))),
            Err(er) => Err(er),
        }
    } else if name == str_as_bytes("Min-SE"@) {
        let (e, v) = spec_parse_u32(s, p);
        Ok((e, SipHeaderV::MinSE(v)))
    } else {
        match spec_parse_str_line(s, p) {
            Ok((e, v)) => Ok((e, SipHeaderV::Unknown { name, value: v })),
            Err(er) => Err(er),
        }
    }
}

/// One header line: spaces, the name up to a `:`, then the value grammar
/// that the name selects.
pub open spec fn spec_parse_header(s: Seq<u8>, i: int) -> Result<(int, SipHeaderV), PErr> {
    let a = run_end(s, i, ByteClass::Space);
    let j = run_end(s, a, ByteClass::NotColon);
    if j == s.len() {
        Err(PErr::Incomplete)
    } else {
        spec_dispatch_header(s, s.subrange(a, j), j + 1)
    }
}

/// The header block: header lines, each followed by an optional CRLF,
/// until a bare CRLF line, which is consumed.
pub open spec fn spec_header_items(s: Seq<u8>, i: int) -> Result<(int, Seq<SipHeaderV>), PErr>
    decreases s.len() - i,
{
    if !(0 <= i <= s.len()) {
        Err(PErr::Incomplete)
    } else if i + 2 <= s.len() && s[i] == 13 && s[i + 1] == 10 {
        Ok((i + 2, Seq::empty()))
    } else if i + 2 > s.len() {
        Err(PErr::Incomplete)
    } else {
        match spec_parse_header(s, i) {
            Err(er) => Err(er),
            Ok((p, h)) => {
                let p2 = if p + 2 <= s.len() && s[p] == 13 && s[p + 1] == 10 {
                    p + 2
                } else {
                    p
                };
                if i < p2 <= s.len() {
                    match spec_header_items(s, p2) {
                        Ok((e, rest)) => Ok((e, seq![h] + rest)),
                        Err(er) => Err(er),
                    }
                } else {
                    Err(PErr::Syntax { rule: Rule::List, pos: i })
                }
            },
        }
    }
}

/// Map a recognized request method name to its start-line variant; any
/// other name is data, not an error.
pub open spec fn spec_new_req(m: Seq<u8>, uri: UriV, version: Seq<u8>) -> SipMethodV {
    if m == str_as_bytes("REGISTER"@) {
        SipMethodV::Register { uri, version }
    } else if m == str_as_bytes("INVITE"@) {
        SipMethodV::Invite { uri, version }
    } else if m == str_as_bytes("ACK"@) {
        SipMethodV::Ack { uri, version }
    } else if m == str_as_bytes("CANCEL"@) {
        SipMethodV::Cancel { uri, version }
    } else if m == str_as_bytes("BYE"@) {
        SipMethodV::Bye { uri, version }
    } else if m == str_as_bytes("OPTIONS"@) {
        SipMethodV::Options { uri, version }
    } else if m == str_as_bytes("SUBSCRIBE"@) {
        SipMethodV::Subscribe { uri, version }
    } else {
        SipMethodV::Unknown { method: m, uri, version }
    }
}

/// A request line: the method up to a space, the request address, the
/// version token, then CRLF.
pub open spec fn spec_parse_sip_request(s: Seq<u8>, i: int) -> Result<(int, SipMethodV), PErr> {
    let j = run_end(s, i, ByteClass::NotSpaceByte);
    if j == s.len() {
        Err(PErr::Syntax { rule: Rule::Blank, pos: i })
    } else {
        match spec_parse_uri(s, j + 1) {
            Err(er) => Err(er),
            Ok((p1, uri)) => {
                let (p2, v) = spec_parse_str(s, p1);
                if p2 + 2 <= s.len() && s[p2] == 13 && s[p2 + 1] == 10 {
                    Ok((p2 + 2, spec_new_req(s.subrange(i, j), uri, v)))
                } else if p2 + 2 > s.len() {
                    Err(PErr::Incomplete)
                } else {
                    Err(PErr::Syntax { rule: Rule::Crlf, pos: p2 })
                }
            },
        }
    }
}

/// A status line: the version token, a space, the status code, a space,
/// the reason up to CRLF, then CRLF.
pub open spec fn spec_parse_sip_response(s: Seq<u8>, i: int) -> Result<(int, SipMethodV), PErr> {
    let (p1, version) = spec_parse_str(s, i);
    if p1 >= s.len() {
        Err(PErr::Incomplete)
    } else if s[p1] != 32 {
        Err(PErr::Syntax { rule: Rule::Blank, pos: p1 })
    } else {
        let (p2, code) = spec_parse_u32(s, p1 + 1);
        if p2 >= s.len() {
            Err(PErr::Incomplete)
        } else if s[p2] != 32 {
            Err(PErr::Syntax { rule: Rule::Blank, pos: p2 })
        } else {
            let a = run_end(s, p2 + 1, ByteClass::Space);
            let e = crlf_end(s, a);
            if e == s.len() {
                Err(PErr::Incomplete)
            } else {
                Ok((e + 2, SipMethodV::Response { version, code, reason: s.subrange(a, e) }))
            }
        }
    }
}

/// The start line: the status-line grammar first, and on any failure the
/// request-line grammar from the same position.
pub open spec fn spec_parse_sip_method(s: Seq<u8>, i: int) -> Result<(int, SipMethodV), PErr> {
    match spec_parse_sip_response(s, i) {
        Ok(r) => Ok(r),
        Err(_) => spec_parse_sip_request(s, i),
    }
}

/// A whole message: the start line, then the header block up to and
/// including the blank line.  The content sequence is left empty: body
/// handling beyond `Content-Length` is outside this grammar.
pub open spec fn spec_parse_sip_message(s: Seq<u8>) -> Result<(int, SipMessageV), PErr> {
    match spec_parse_sip_method(s, 0) {
        Err(er) => Err(er),
        Ok((p1, method)) => match spec_header_items(s, p1) {
            Err(er) => Err(er),
            Ok((p2, headers)) => Ok(
                (p2, SipMessageV { method, headers, content: Seq::empty() }),
            ),
        },
    }
}

} // verus!
