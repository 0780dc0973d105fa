//! A verified parser for SIP text messages.
//!
//! The crate decodes one complete SIP message - a request or status start
//! line followed by a block of header lines - into typed values.  Every
//! parser is specified against a functional model of the grammar (module
//! [`grammar`]) and proved to compute exactly what the model says.

use vstd::prelude::*;

pub mod contact;
pub mod grammar;
pub mod header;
pub mod laws;
pub mod scan;

pub use header::types::{Alias, ContactInfo, Params, ParseError, SockAddr, URI};
pub use header::{SipHeader, SipMessage, SipMethod};

use vstd::utf8::{decode_utf8, valid_utf8};

verus! {

/// The SIP token-delimiter set: bytes that end a bare token or parameter,
/// namely `( ) < > @ , : ; \ / ? =`, space, tab, CR and LF.
pub open spec fn spec_is_reserved(c: u8) -> bool {
    c == 40 || c == 41  // ( )
    || c == 60 || c == 62  // < >
    || c == 64  // @
    || c == 44 || c == 58 || c == 59  // , : ;
    || c == 92 || c == 47 || c == 63 || c == 61  // \ / ? =
    || c == 32 || c == 9 || c == 13 || c == 10  // space tab CR LF
}

/// Decide [`spec_is_reserved`] on a single byte.
fn reserved_byte(c: u8) -> (r: bool)
    ensures
        r == spec_is_reserved(c),
{
    c == 40 || c == 41 || c == 60 || c == 62 || c == 64
        || c == 44 || c == 58 || c == 59 || c == 92 || c == 47
        || c == 63 || c == 61 || c == 32 || c == 9 || c == 13 || c == 10
}

/// True when `c` occurs in `s`.
pub fn is_any_of(c: u8, s: &[u8]) -> (r: bool)
    ensures
        r == s@.contains(c),
{
    let mut k: usize = 0;
    while k < s.len()
        invariant
            k <= s@.len(),
            forall|t: int| 0 <= t < k ==> s@[t] != c,
        decreases s@.len() - k,
    {
        if s[k] == c {
            return true;
        }
        k += 1;
    }
    false
}

/// A byte is a delimiter here when it is reserved and not in `except`.
pub fn is_reserved_char_except(c: u8, except: &[u8]) -> (r: bool)
    ensures
        r == (spec_is_reserved(c) && !except@.contains(c)),
{
    !is_any_of(c, except) && reserved_byte(c)
}

/// Negation of [`is_reserved_char_except`].
pub fn is_not_reserved_char_except(c: u8, exception: &[u8]) -> (r: bool)
    ensures
        r == !(spec_is_reserved(c) && !exception@.contains(c)),
{
    !is_reserved_char_except(c, exception)
}

/// True when `c` belongs to the reserved delimiter set.
pub fn is_reserved_char(c: u8) -> (r: bool)
    ensures
        r == spec_is_reserved(c),
{
    reserved_byte(c)
}

/// Negation of [`is_reserved_char`].
pub fn is_not_reserved_char(c: u8) -> (r: bool)
    ensures
        r == !spec_is_reserved(c),
{
    !reserved_byte(c)
}

/// Relies on `String::from_utf8` from std: it returns `Ok` exactly when the
/// bytes are valid UTF-8, and then the string holds their decoding.
#[verifier::external_body]
fn bytes_to_string(s: &[u8]) -> (r: Option<String>)
    ensures
        r is Some <==> valid_utf8(s@),
        r matches Some(t) ==> t@ == decode_utf8(s@),
{
    String::from_utf8(s.to_vec()).ok()
}

/// Decode bytes into an owned string; empty or malformed input gives `None`.
pub fn to_str(s: &[u8]) -> (r: Option<String>)
    ensures
        s@.len() == 0 ==> r is None,
        s@.len() > 0 ==> (r is Some <==> valid_utf8(s@)),
        r matches Some(t) ==> t@ == decode_utf8(s@),
{
    if s.len() == 0 {
        None
    } else {
        bytes_to_string(s)
    }
}

/// Decode bytes into an owned string; empty or malformed input gives `""`.
pub fn to_str_default(s: &[u8]) -> (r: String)
    ensures
        valid_utf8(s@) ==> r@ == decode_utf8(s@),
        !valid_utf8(s@) ==> r@ == Seq::<char>::empty(),
{
    match to_str(s) {
        Some(t) => t,
        None => String::new(),
    }
}

/// `data` with every CRLF replaced by `\r\n` spelled out and then a real CRLF.
pub open spec fn dbg_escape(s: Seq<u8>) -> Seq<u8>
    decreases s.len(),
{
    if s.len() >= 2 && s[0] == 13 && s[1] == 10 {
        seq![92u8, 114u8, 92u8, 110u8, 13u8, 10u8] + dbg_escape(s.skip(2))
    } else if s.len() == 0 {
        s
    } else {
        seq![s[0]] + dbg_escape(s.skip(1))
    }
}

/// Decode bytes for display, marking each line break visibly.
pub fn to_str_dbg(data: &[u8]) -> (r: String)
    ensures
        valid_utf8(dbg_escape(data@)) ==> r@ == decode_utf8(dbg_escape(data@)),
        !valid_utf8(dbg_escape(data@)) ==> r@ == Seq::<char>::empty(),
{
    let mut out: Vec<u8> = Vec::new();
    let mut i: usize = 0;
    proof {
        assert(data@.skip(0) =~= data@);
        assert(out@ + dbg_escape(data@) =~= dbg_escape(data@));
    }
    while i < data.len()
        invariant
            i <= data@.len(),
            dbg_escape(data@) == out@ + dbg_escape(data@.skip(i as int)),
        decreases data@.len() - i,
    {
        let ghost pre = out@;
        if i + 1 < data.len() && data[i] == 13 && data[i + 1] == 10 {
            out.push(92);
            out.push(114);
            out.push(92);
            out.push(110);
            out.push(13);
            out.push(10);
            proof {
                let rest = data@.skip(i as int);
                assert(rest.skip(2) =~= data@.skip(i + 2));
                assert(out@ =~= pre + seq![92u8, 114u8, 92u8, 110u8, 13u8, 10u8]);
                assert(out@ + dbg_escape(data@.skip(i + 2)) =~= pre + dbg_escape(
                    data@.skip(i as int),
                ));
            }
            i += 2;
        } else {
            out.push(data[i]);
            proof {
                let rest = data@.skip(i as int);
                assert(rest[0] == data@[i as int]);
                assert(rest.skip(1) =~= data@.skip(i + 1));
                assert(out@ =~= pre + seq![data@[i as int]]);
                assert(out@ + dbg_escape(data@.skip(i + 1)) =~= pre + dbg_escape(
                    data@.skip(i as int),
                ));
            }
            i += 1;
        }
    }
    proof {
        assert(data@.skip(i as int) =~= Seq::<u8>::empty());
        assert(out@ + Seq::<u8>::empty() =~= out@);
    }
    to_str_default(out.as_slice())
}

} // verus!
