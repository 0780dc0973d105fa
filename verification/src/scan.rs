//! Byte-run scanning: the primitive every grammar rule is built from.
//!
//! A rule either consumes the maximal run of bytes of one class
//! ([`run_end`]) or searches for the next CRLF pair ([`crlf_end`]).

use vstd::prelude::*;
use vstd::slice::{slice_subrange, slice_to_vec};

use crate::spec_is_reserved;

verus! {

/// The byte classes the grammar scans over.
#[derive(Clone, Copy, Debug, PartialEq, Eq)]
pub enum ByteClass {
    /// Space or tab.
    Space,
    /// ASCII decimal digit.
    Digit,
    /// May stand inside a `key=value` parameter token: `=` or unreserved.
    Param,
    /// Any byte outside the reserved delimiter set.
    NotReserved,
    /// May stand inside a bare token: anything but space, comma, semicolon, CR, LF.
    Token,
    /// Anything but space or tab.
    NotSpace,
    /// Anything but `:`.
    NotColon,
    /// Anything but `"`.
    NotQuote,
    /// May stand inside a URI user part: anything but `@ > ;` CR LF.
    UriExt,
    /// May stand inside a URI host part: anything but `: > ;` CR LF.
    UriDom,
    /// May stand inside a display name: anything but `<` CR LF.
    AliasText,
    /// Anything but the space byte itself (tab allowed).
    NotSpaceByte,
}

/// Whether byte `c` belongs to class `k`.
pub open spec fn class_pred(k: ByteClass, c: u8) -> bool {
    match k {
        ByteClass::Space => c == 32 || c == 9,
        ByteClass::Digit => 48 <= c && c <= 57,
        ByteClass::Param => c == 61 || !spec_is_reserved(c),
        ByteClass::NotReserved => !spec_is_reserved(c),
        ByteClass::Token => !(c == 32 || c == 44 || c == 59 || c == 13 || c == 10),
        ByteClass::NotSpace => !(c == 32 || c == 9),
        ByteClass::NotColon => c != 58,
        ByteClass::NotQuote => c != 34,
        ByteClass::UriExt => !(c == 64 || c == 62 || c == 59 || c == 13 || c == 10),
        ByteClass::UriDom => !(c == 58 || c == 62 || c == 59 || c == 13 || c == 10),
        ByteClass::AliasText => !(c == 60 || c == 13 || c == 10),
        ByteClass::NotSpaceByte => c != 32,
    }
}

/// Where the run of class-`k` bytes that starts at `i` ends: the first
/// position at or after `i` whose byte leaves the class, or the end of `s`.
pub open spec fn run_end(s: Seq<u8>, i: int, k: ByteClass) -> int
    decreases s.len() - i,
{
    if 0 <= i < s.len() && class_pred(k, s[i]) {
        run_end(s, i + 1, k)
    } else {
        i
    }
}

/// Bounds and meaning of [`run_end`]: the run lies inside `s`, all its bytes
/// are in the class, and the byte after it (if any) is not.
pub proof fn lemma_run_end(s: Seq<u8>, i: int, k: ByteClass)
    requires
        0 <= i <= s.len(),
    ensures
        i <= run_end(s, i, k) <= s.len(),
        forall|t: int| i <= t < run_end(s, i, k) ==> class_pred(k, s[t]),
        run_end(s, i, k) < s.len() ==> !class_pred(k, s[run_end(s, i, k)]),
    decreases s.len() - i,
{
    if 0 <= i < s.len() && class_pred(k, s[i]) {
        lemma_run_end(s, i + 1, k);
    }
}

/// [`run_end`] is determined by the first-order description of a run.
pub proof fn lemma_run_end_exact(s: Seq<u8>, i: int, j: int, k: ByteClass)
    requires
        0 <= i <= j <= s.len(),
        forall|t: int| i <= t < j ==> class_pred(k, s[t]),
        j < s.len() ==> !class_pred(k, s[j]),
    ensures
        run_end(s, i, k) == j,
    decreases j - i,
{
    if i < j {
        lemma_run_end_exact(s, i + 1, j, k);
    }
}

/// Decide [`class_pred`] on a single byte.
pub fn class_holds(k: ByteClass, c: u8) -> (r: bool)
    ensures
        r == class_pred(k, c),
{
    match k {
        ByteClass::Space => c == 32 || c == 9,
        ByteClass::Digit => 48 <= c && c <= 57,
        ByteClass::Param => c == 61 || !crate::is_reserved_char(c),
        ByteClass::NotReserved => !crate::is_reserved_char(c),
        ByteClass::Token => !(c == 32 || c == 44 || c == 59 || c == 13 || c == 10),
        ByteClass::NotSpace => !(c == 32 || c == 9),
        ByteClass::NotColon => c != 58,
        ByteClass::NotQuote => c != 34,
        ByteClass::UriExt => !(c == 64 || c == 62 || c == 59 || c == 13 || c == 10),
        ByteClass::UriDom => !(c == 58 || c == 62 || c == 59 || c == 13 || c == 10),
        ByteClass::AliasText => !(c == 60 || c == 13 || c == 10),
        ByteClass::NotSpaceByte => c != 32,
    }
}

/// Consume the maximal run of class-`k` bytes starting at `i`.
pub fn scan(s: &[u8], i: usize, k: ByteClass) -> (j: usize)
    requires
        i <= s@.len(),
    ensures
        j == run_end(s@, i as int, k),
        i <= j <= s@.len(),
{
    proof {
        lemma_run_end(s@, i as int, k);
    }
    let mut j = i;
    while j < s.len() && class_holds(k, s[j])
        invariant
            i <= j <= s@.len(),
            run_end(s@, i as int, k) == run_end(s@, j as int, k),
        decreases s@.len() - j,
    {
        j += 1;
    }
    j
}

/// The position of the first CRLF pair at or after `i`, or the length of `s`
/// when no such pair follows.
pub open spec fn crlf_end(s: Seq<u8>, i: int) -> int
    decreases s.len() - i,
{
    if 0 <= i && i + 1 < s.len() {
        if s[i] == 13 && s[i + 1] == 10 {
            i
        } else {
            crlf_end(s, i + 1)
        }
    } else {
        s.len() as int
    }
}

/// Bounds and meaning of [`crlf_end`].
pub proof fn lemma_crlf_end(s: Seq<u8>, i: int)
    requires
        0 <= i <= s.len(),
    ensures
        i <= crlf_end(s, i) <= s.len(),
        crlf_end(s, i) < s.len() ==> crlf_end(s, i) + 1 < s.len() && s[crlf_end(s, i)] == 13
            && s[crlf_end(s, i) + 1] == 10,
        forall|t: int|
            i <= t < crlf_end(s, i) && t + 1 < s.len() ==> !(#[trigger] s[t] == 13 && s[t + 1]
                == 10),
    decreases s.len() - i,
{
    if i + 1 < s.len() && !(s[i] == 13 && s[i + 1] == 10) {
        lemma_crlf_end(s, i + 1);
    }
}

/// Search for the next CRLF pair at or after `i`.
pub fn find_crlf(s: &[u8], i: usize) -> (j: usize)
    requires
        i <= s@.len(),
    ensures
        j == crlf_end(s@, i as int),
        i <= j <= s@.len(),
{
    proof {
        lemma_crlf_end(s@, i as int);
    }
    if s.len() == 0 {
        return 0;
    }
    let mut j = i;
    while j < s.len() - 1 && !(s[j] == 13 && s[j + 1] == 10)
        invariant
            i <= j,
            j <= s@.len(),
            s@.len() > 0,
            crlf_end(s@, i as int) == crlf_end(s@, j as int),
        decreases s@.len() - j,
    {
        j += 1;
    }
    if j < s.len() - 1 {
        j
    } else {
        s.len()
    }
}

/// Copy `s[a..b]` into an owned vector.
pub fn copy_range(s: &[u8], a: usize, b: usize) -> (v: Vec<u8>)
    requires
        a <= b <= s@.len(),
    ensures
        v@ == s@.subrange(a as int, b as int),
{
    slice_to_vec(slice_subrange(s, a, b))
}

/// The bytes of an ASCII character sequence.
pub open spec fn str_as_bytes(cs: Seq<char>) -> Seq<u8> {
    Seq::new(cs.len(), |i: int| cs[i] as u8)
}

/// True when the byte slices are equal.
pub fn bytes_eq(a: &[u8], b: &[u8]) -> (r: bool)
    ensures
        r == (a@ == b@),
{
    if a.len() != b.len() {
        proof {
            assert(a@.len() != b@.len());
        }
        return false;
    }
    let mut k: usize = 0;
    while k < a.len()
        invariant
            a@.len() == b@.len(),
            k <= a@.len(),
            forall|t: int| 0 <= t < k ==> a@[t] == b@[t],
        decreases a@.len() - k,
    {
        if a[k] != b[k] {
            return false;
        }
        k += 1;
    }
    proof {
        assert(a@ =~= b@);
    }
    true
}

/// True when `b` spells out the ASCII string `s`.
pub fn ascii_eq(b: &[u8], s: &str) -> (r: bool)
    requires
        s.is_ascii(),
    ensures
        r == (b@ == str_as_bytes(s@)),
{
    let sb = s.as_bytes();
    proof {
        broadcast use vstd::string::is_ascii_spec_bytes;

        assert(sb@ =~= str_as_bytes(s@));
    }
    bytes_eq(b, sb)
}

/// True when the bytes of `s` starting at `i` begin with the ASCII string `t`.
pub open spec fn lit_at(s: Seq<u8>, i: int, t: Seq<char>) -> bool {
    i + t.len() <= s.len() && s.subrange(i, i + t.len()) == str_as_bytes(t)
}

/// Match the literal `t` at position `i`; `None` means the input ended first,
/// `Some(r)` says whether the literal is there.
pub fn match_lit(s: &[u8], i: usize, t: &str) -> (r: Option<bool>)
    requires
        i <= s@.len(),
        t.is_ascii(),
    ensures
        r is None <==> i + t@.len() > s@.len(),
        r matches Some(m) ==> m == lit_at(s@, i as int, t@),
{
    let tb = t.as_bytes();
    proof {
        broadcast use vstd::string::is_ascii_spec_bytes;

        assert(tb@ =~= str_as_bytes(t@));
    }
    let n = s.len();
    if tb.len() > n - i {
        return None;
    }
    let mut k: usize = 0;
    while k < tb.len()
        invariant
            i + tb@.len() <= n == s@.len(),
            k <= tb@.len(),
            tb@ == str_as_bytes(t@),
            forall|t2: int| 0 <= t2 < k ==> s@[i + t2] == tb@[t2],
        decreases tb@.len() - k,
    {
        if s[i + k] != tb[k] {
            proof {
                assert(s@.subrange(i as int, i + tb@.len())[k as int] != tb@[k as int]);
            }
            return Some(false);
        }
        k += 1;
    }
    proof {
        assert(s@.subrange(i as int, i + tb@.len()) =~= tb@);
    }
    Some(true)
}

/// True when the bytes of `s` ending at `end` spell out `suffix`.
pub fn suffix_at(s: &[u8], end: usize, suffix: &[u8]) -> (r: bool)
    requires
        end <= s@.len(),
    ensures
        r == (suffix@.len() <= end && s@.subrange(end - suffix@.len(), end as int) == suffix@),
{
    if suffix.len() > end {
        return false;
    }
    let start = end - suffix.len();
    let mut k: usize = 0;
    while k < suffix.len()
        invariant
            start + suffix@.len() == end <= s@.len(),
            k <= suffix@.len(),
            forall|t: int| 0 <= t < k ==> s@[start + t] == suffix@[t],
        decreases suffix@.len() - k,
    {
        if s[start + k] != suffix[k] {
            proof {
                assert(s@.subrange(start as int, end as int)[k as int] != suffix@[k as int]);
            }
            return false;
        }
        k += 1;
    }
    proof {
        assert(s@.subrange(start as int, end as int) =~= suffix@);
    }
    true
}

} // verus!
