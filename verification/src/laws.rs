//! Properties of the grammar, stated and proved once for all inputs.
//!
//! Each law speaks about the functional model in [`crate::grammar`];
//! through the parsers' contracts (every parser returns exactly what the
//! model says) the laws carry over to the executable code.

use vstd::prelude::*;

use crate::grammar::{
    dec_val, spec_alias, spec_parse_contact_info, spec_parse_params, spec_parse_sip_message,
    spec_parse_str_list, spec_parse_u32, spec_parse_uri_with_params, spec_parse_uri_wo_params,
    AliasV, ContactInfoV, PErr, UriV,
};
use crate::scan::{class_pred, lemma_run_end, lemma_run_end_exact, run_end, ByteClass};

verus! {

/// The value of a digit run is never negative.
proof fn lemma_dec_val_nonneg(d: Seq<u8>)
    requires
        forall|t: int| 0 <= t < d.len() ==> class_pred(ByteClass::Digit, #[trigger] d[t]),
    ensures
        dec_val(d) >= 0,
    decreases d.len(),
{
    if d.len() > 0 {
        lemma_dec_val_nonneg(d.drop_last());
    }
}

/// Reading back a number: for every digit rendering of a value that fits
/// in `u32`, the numeric parser on `"<digits>\r\n"` returns that value and
/// stops right at the CRLF, leaving it unconsumed.
pub proof fn lemma_parse_u32_digits(d: Seq<u8>)
    requires
        d.len() > 0,
        forall|t: int| 0 <= t < d.len() ==> class_pred(ByteClass::Digit, #[trigger] d[t]),
        dec_val(d) <= u32::MAX,
    ensures
        spec_parse_u32(d + seq![13u8, 10u8], 0) == (d.len() as int, dec_val(d) as u32),
        dec_val(d) >= 0,
{
    let s = d + seq![13u8, 10u8];
    assert(s[0] == d[0]);
    assert(!class_pred(ByteClass::Space, s[0]));
    assert(run_end(s, 0, ByteClass::Space) == 0);
    assert forall|t: int| 0 <= t < d.len() implies class_pred(
        ByteClass::Digit,
        #[trigger] s[t],
    ) by {
        assert(s[t] == d[t]);
    }
    assert(s[d.len() as int] == 13);
    lemma_run_end_exact(s, 0, d.len() as int, ByteClass::Digit);
    assert(s.subrange(0, d.len() as int) =~= d);
    lemma_dec_val_nonneg(d);
}

/// The silent default: on input that starts with anything but a space,
/// tab or digit, the numeric parser consumes nothing and returns 0.
pub proof fn lemma_parse_u32_nondigit(s: Seq<u8>)
    requires
        s.len() > 0,
        !class_pred(ByteClass::Space, s[0]),
        !class_pred(ByteClass::Digit, s[0]),
    ensures
        spec_parse_u32(s, 0) == (0int, 0u32),
{
    assert(run_end(s, 0, ByteClass::Space) == 0);
    assert(run_end(s, 0, ByteClass::Digit) == 0);
    assert(s.subrange(0, 0) =~= Seq::<u8>::empty());
}

/// Parsing is a function of the bytes alone: the same input always gives
/// the same outcome.  Together with each parser's contract - its result
/// equals this model of its input - two runs over equal buffers return
/// structurally equal values; no call leaves state behind.
pub proof fn lemma_parse_deterministic(s1: Seq<u8>, s2: Seq<u8>)
    requires
        s1 == s2,
    ensures
        spec_parse_sip_message(s1) == spec_parse_sip_message(s2),
{
}

/// Where the address of a contact line begins: after leading spaces, the
/// display name, and the spaces that follow it.
pub open spec fn contact_uri_start(s: Seq<u8>, i: int) -> int {
    let a = run_end(s, i, ByteClass::Space);
    let (p1, al) = spec_alias(s, a);
    run_end(s, p1, ByteClass::Space)
}

/// A bare-form address carries no parameters of its own.
pub proof fn lemma_bare_uri_has_no_params(s: Seq<u8>, i: int, j: int, u: UriV)
    requires
        spec_parse_uri_wo_params(s, i) == Ok::<(int, UriV), PErr>((j, u)),
    ensures
        u.params == Seq::<Seq<u8>>::empty(),
{
}

/// Attachment, bare form: when the address does not start with `<`, the
/// address inside a parsed contact carries no parameters - whatever
/// `;key=value` text follows belongs to the contact itself, read by the
/// parameter rule from the address's end.
pub proof fn lemma_contact_bare_attachment(s: Seq<u8>, i: int, j: int, c: ContactInfoV)
    requires
        spec_parse_contact_info(s, i) == Ok::<(int, ContactInfoV), PErr>((j, c)),
        contact_uri_start(s, i) < s.len(),
        s[contact_uri_start(s, i)] != 60,
    ensures
        c.uri.params == Seq::<Seq<u8>>::empty(),
        exists|m: int|
            spec_parse_uri_wo_params(s, contact_uri_start(s, i)) == Ok::<(int, UriV), PErr>(
                (m, c.uri),
            ) && spec_parse_params(s, m) == Ok::<(int, Seq<Seq<u8>>), PErr>((j, c.params)),
{
    let u0 = contact_uri_start(s, i);
    match spec_parse_uri_wo_params(s, u0) {
        Ok((m, u)) => {
            lemma_bare_uri_has_no_params(s, u0, m, u);
            assert(spec_parse_uri_wo_params(s, u0) == Ok::<(int, UriV), PErr>((m, c.uri))
                && spec_parse_params(s, m) == Ok::<(int, Seq<Seq<u8>>), PErr>((j, c.params)));
        },
        Err(_) => {
            assert(false);
        },
    }
}

/// Attachment, bracketed form: when the bracketed address grammar
/// succeeds at the address start, the parsed contact holds exactly that
/// address - parameters inside the brackets stay with the address - and
/// the contact's own parameters are read from just after the closing `>`.
pub proof fn lemma_contact_bracketed_attachment(
    s: Seq<u8>,
    i: int,
    j: int,
    c: ContactInfoV,
    m: int,
    u: UriV,
)
    requires
        spec_parse_contact_info(s, i) == Ok::<(int, ContactInfoV), PErr>((j, c)),
        spec_parse_uri_with_params(s, contact_uri_start(s, i)) == Ok::<(int, UriV), PErr>((m, u)),
    ensures
        c.uri == u,
        spec_parse_params(s, m) == Ok::<(int, Seq<Seq<u8>>), PErr>((j, c.params)),
{
}

/// The display-name distinction: a contact whose address starts directly
/// with `<` has no display name at all, while an empty quoted name `""`
/// stays present as the empty name.
pub proof fn lemma_alias_distinction(s: Seq<u8>, i: int, j: int, c: ContactInfoV)
    requires
        0 <= i <= s.len(),
        spec_parse_contact_info(s, i) == Ok::<(int, ContactInfoV), PErr>((j, c)),
    ensures
        ({
            let a = run_end(s, i, ByteClass::Space);
            a < s.len() && s[a] == 60
        }) ==> c.alias is None,
        ({
            let a = run_end(s, i, ByteClass::Space);
            a + 1 < s.len() && s[a] == 34 && s[a + 1] == 34
        }) ==> c.alias == Some(Seq::<u8>::empty()),
{
    let a = run_end(s, i, ByteClass::Space);
    lemma_run_end(s, i, ByteClass::Space);
    if a < s.len() && s[a] == 60 {
        assert(run_end(s, a, ByteClass::AliasText) == a);
        assert(spec_alias(s, a).1 == AliasV::Bare(s.subrange(a, a)));
        assert(s.subrange(a, a).len() == 0);
    }
    if a + 1 < s.len() && s[a] == 34 && s[a + 1] == 34 {
        assert(run_end(s, a + 1, ByteClass::NotQuote) == a + 1);
        assert(spec_alias(s, a).1 == AliasV::Quoted(s.subrange(a + 1, a + 1)));
        assert(s.subrange(a + 1, a + 1) =~= Seq::<u8>::empty());
    }
}

/// An empty list header is a value, not a failure: on a line that ends
/// immediately in CRLF, the token-list rule succeeds with the empty list
/// and consumes nothing.
pub proof fn lemma_empty_list(s: Seq<u8>, i: int)
    requires
        0 <= i,
        i + 2 <= s.len(),
        s[i] == 13,
        s[i + 1] == 10,
    ensures
        spec_parse_str_list(s, i) == Ok::<(int, Seq<Seq<u8>>), PErr>((i, Seq::empty())),
{
    assert(run_end(s, i, ByteClass::Space) == i);
}

} // verus!

verus! {

/// The decimal rendering of a nonnegative value, most significant digit
/// first, with no leading zeros (except for 0 itself).
pub open spec fn digits_of(n: int) -> Seq<u8>
    recommends
        n >= 0,
    decreases n,
{
    if n < 10 {
        seq![(48 + if n >= 0 { n } else { 0 }) as u8]
    } else {
        digits_of(n / 10).push((48 + n % 10) as u8)
    }
}

/// The rendering consists of digits and reads back as the value itself.
proof fn lemma_digits_of_val(n: int)
    requires
        n >= 0,
    ensures
        digits_of(n).len() > 0,
        forall|t: int|
            0 <= t < digits_of(n).len() ==> class_pred(ByteClass::Digit, #[trigger] digits_of(n)[t]),
        dec_val(digits_of(n)) == n,
    decreases n,
{
    vstd::arithmetic::div_mod::lemma_mod_bound(n, 10);
    if n < 10 {
        let d = digits_of(n);
        assert(d == seq![(48 + n) as u8]);
        assert(d.len() == 1);
        assert(d.last() == (48 + n) as u8);
        assert(d.drop_last() =~= Seq::<u8>::empty());
        assert(dec_val(d.drop_last()) == 0);
        assert(dec_val(d) == 10 * dec_val(d.drop_last()) + (d.last() - 48));
    } else {
        vstd::arithmetic::div_mod::lemma_div_pos_is_pos(n, 10);
        vstd::arithmetic::div_mod::lemma_div_is_ordered_by_denominator(n, 1, 10);
        lemma_digits_of_val(n / 10);
        let pre = digits_of(n / 10);
        let d = digits_of(n);
        assert(d == pre.push((48 + n % 10) as u8));
        assert(d.drop_last() =~= pre);
        assert(d.last() == (48 + n % 10) as u8);
        assert(dec_val(d) == 10 * (n / 10) + n % 10);
        vstd::arithmetic::div_mod::lemma_fundamental_div_mod(n, 10);
        assert forall|t: int| 0 <= t < d.len() implies class_pred(
            ByteClass::Digit,
            #[trigger] d[t],
        ) by {
            if t < pre.len() {
                assert(d[t] == pre[t]);
            }
        }
    }
}

/// Reading back a rendered number: for every value that fits in `u32`,
/// the numeric parser on its decimal rendering followed by CRLF returns
/// the value itself and leaves the CRLF unconsumed.
pub proof fn lemma_parse_u32_round_trip(n: u32)
    ensures
        spec_parse_u32(digits_of(n as int) + seq![13u8, 10u8], 0) == (
            digits_of(n as int).len() as int,
            n,
        ),
{
    lemma_digits_of_val(n as int);
    lemma_parse_u32_digits(digits_of(n as int));
}

} // verus!
