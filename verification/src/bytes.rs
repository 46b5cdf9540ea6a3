//! Byte-string primitives shared by the parser, the router and the response
//! writer: searching, trimming, comparing and decimal rendering.

use vstd::prelude::*;
use vstd::slice::{slice_subrange, slice_to_vec};
use vstd::utf8::{is_ascii_chars, is_ascii_chars_encode_utf8};

verus! {

/// Line feed, the line terminator.
pub const LF: u8 = 10;

/// Carriage return, stripped from the end of a line.
pub const CR: u8 = 13;

/// The colon between a header's name and its value.
pub const COLON: u8 = 58;

/// The slash between the segments of a path.
pub const SLASH: u8 = 47;

/// The NUL byte that pads an unfilled read buffer.
pub const NUL: u8 = 0;

/// The bytes of a sequence of ASCII characters, one byte per character.
pub open spec fn ascii(chars: Seq<char>) -> Seq<u8> {
    Seq::new(chars.len(), |i: int| chars[i] as u8)
}

/// Whitespace: the space and the control characters from tab to carriage
/// return.
pub open spec fn is_space(b: u8) -> bool {
    b == 32 || (9 <= b && b <= 13)
}

/// The first index at or after `from` at which `s` holds `b`, or the length
/// of `s` if there is none.
pub open spec fn find(s: Seq<u8>, b: u8, from: int) -> int
    recommends
        0 <= from,
    decreases s.len() - from,
{
    if from >= s.len() {
        s.len() as int
    } else if s[from] == b {
        from
    } else {
        find(s, b, from + 1)
    }
}

/// The first index at or after `from` at which `s` holds no whitespace, or
/// the length of `s` if there is none.
pub open spec fn skip_spaces(s: Seq<u8>, from: int) -> int
    recommends
        0 <= from,
    decreases s.len() - from,
{
    if from >= s.len() {
        s.len() as int
    } else if !is_space(s[from]) {
        from
    } else {
        skip_spaces(s, from + 1)
    }
}

/// The first index at or after `from` at which `s` holds whitespace, or the
/// length of `s` if there is none.
pub open spec fn skip_token(s: Seq<u8>, from: int) -> int
    recommends
        0 <= from,
    decreases s.len() - from,
{
    if from >= s.len() {
        s.len() as int
    } else if is_space(s[from]) {
        from
    } else {
        skip_token(s, from + 1)
    }
}

/// `s` without its trailing whitespace.
pub open spec fn trim_end(s: Seq<u8>) -> Seq<u8>
    decreases s.len(),
{
    if s.len() > 0 && is_space(s.last()) {
        trim_end(s.drop_last())
    } else {
        s
    }
}

/// `s` without its leading and trailing whitespace.
pub open spec fn trim(s: Seq<u8>) -> Seq<u8> {
    trim_end(s.skip(skip_spaces(s, 0)))
}

/// `s` without its trailing NUL bytes.
pub open spec fn strip_nuls(s: Seq<u8>) -> Seq<u8>
    decreases s.len(),
{
    if s.len() > 0 && s.last() == NUL {
        strip_nuls(s.drop_last())
    } else {
        s
    }
}

/// Whether `s` begins with `prefix`.
pub open spec fn has_prefix(s: Seq<u8>, prefix: Seq<u8>) -> bool {
    prefix.len() <= s.len() && s.subrange(0, prefix.len() as int) == prefix
}

/// The ASCII digit for `d`, where `d` is below ten.
pub open spec fn digit(d: nat) -> u8
    recommends
        d < 10,
{
    (48 + d) as u8
}

/// `n` in decimal, most significant digit first, without leading zeros.
pub open spec fn decimal(n: nat) -> Seq<u8>
    decreases n,
{
    if n < 10 {
        seq![digit(n)]
    } else {
        decimal(n / 10).push(digit(n % 10))
    }
}

/// `find` returns `at` exactly when `at` is the first occurrence of `b` at or
/// after `from`, or the length of `s` when `b` does not occur there.
pub proof fn lemma_find(s: Seq<u8>, b: u8, from: int, at: int)
    requires
        0 <= from <= at <= s.len(),
        forall|i: int| from <= i < at ==> s[i] != b,
        at < s.len() ==> s[at] == b,
    ensures
        find(s, b, from) == at,
    decreases at - from,
{
    if from < at {
        lemma_find(s, b, from + 1, at);
    }
}

/// What `find` returns lies between `from` and the length of `s`, holds `b`
/// unless it is the length, and nothing before it from `from` on holds `b`.
pub proof fn lemma_find_is_first(s: Seq<u8>, b: u8, from: int)
    requires
        0 <= from <= s.len(),
    ensures
        from <= find(s, b, from) <= s.len(),
        find(s, b, from) < s.len() ==> s[find(s, b, from)] == b,
        forall|i: int| from <= i < find(s, b, from) ==> s[i] != b,
    decreases s.len() - from,
{
    if from < s.len() && s[from] != b {
        lemma_find_is_first(s, b, from + 1);
    }
}

/// `skip_spaces` returns `at` exactly when everything from `from` up to `at`
/// is whitespace and `at` is the end of `s` or holds none.
pub proof fn lemma_skip_spaces(s: Seq<u8>, from: int, at: int)
    requires
        0 <= from <= at <= s.len(),
        forall|i: int| from <= i < at ==> is_space(s[i]),
        at < s.len() ==> !is_space(s[at]),
    ensures
        skip_spaces(s, from) == at,
    decreases at - from,
{
    if from < at {
        lemma_skip_spaces(s, from + 1, at);
    }
}

/// `skip_token` returns `at` exactly when nothing from `from` up to `at` is
/// whitespace and `at` is the end of `s` or holds whitespace.
pub proof fn lemma_skip_token(s: Seq<u8>, from: int, at: int)
    requires
        0 <= from <= at <= s.len(),
        forall|i: int| from <= i < at ==> !is_space(s[i]),
        at < s.len() ==> is_space(s[at]),
    ensures
        skip_token(s, from) == at,
    decreases at - from,
{
    if from < at {
        lemma_skip_token(s, from + 1, at);
    }
}

/// The bytes of an ASCII string literal.
pub(crate) fn literal(text: &str) -> (bytes: Vec<u8>)
    requires
        is_ascii_chars(text@),
    ensures
        bytes@ == ascii(text@),
{
    proof {
        is_ascii_chars_encode_utf8(text@);
    }
    slice_to_vec(text.as_bytes())
}

/// Whether the byte is whitespace.
pub fn is_space_byte(b: u8) -> (r: bool)
    ensures
        r == is_space(b),
{
    b == 32 || (9 <= b && b <= 13)
}

/// Whether two byte strings are equal.
pub fn same_bytes(a: &[u8], b: &[u8]) -> (r: bool)
    ensures
        r == (a@ == b@),
{
    if a.len() != b.len() {
        return false;
    }
    let mut i: usize = 0;
    while i < a.len()
        invariant
            i <= a@.len(),
            a@.len() == b@.len(),
            forall|j: int| 0 <= j < i ==> a@[j] == b@[j],
        decreases a@.len() - i,
    {
        if a[i] != b[i] {
            return false;
        }
        i += 1;
    }
    assert(a@ =~= b@);
    true
}

/// A copy of the bytes of `s` from `lo` up to `hi`.
pub(crate) fn copy_range(s: &[u8], lo: usize, hi: usize) -> (out: Vec<u8>)
    requires
        lo <= hi <= s@.len(),
    ensures
        out@ == s@.subrange(lo as int, hi as int),
{
    slice_to_vec(slice_subrange(s, lo, hi))
}

/// Appends the bytes of `s` to `out`.
pub fn append(out: &mut Vec<u8>, s: &[u8])
    ensures
        final(out)@ == old(out)@ + s@,
{
    let mut i: usize = 0;
    while i < s.len()
        invariant
            i <= s@.len(),
            out@ == old(out)@ + s@.subrange(0, i as int),
        decreases s@.len() - i,
    {
        out.push(s[i]);
        i += 1;
    }
}

/// The first index at or after `from` at which `s` holds `b`, or the length
/// of `s`.
pub fn find_byte(s: &[u8], b: u8, from: usize) -> (at: usize)
    ensures
        at == find(s@, b, from as int),
        from <= s@.len() ==> from <= at <= s@.len(),
{
    if from >= s.len() {
        return s.len();
    }
    let mut i: usize = from;
    while i < s.len() && s[i] != b
        invariant
            from <= i <= s@.len(),
            find(s@, b, from as int) == find(s@, b, i as int),
        decreases s@.len() - i,
    {
        i += 1;
    }
    i
}

/// The first index at or after `from` at which `s` holds no whitespace, or
/// the length of `s`.
pub fn skip_spaces_in(s: &[u8], from: usize) -> (at: usize)
    ensures
        at == skip_spaces(s@, from as int),
        from <= s@.len() ==> from <= at <= s@.len(),
{
    if from >= s.len() {
        return s.len();
    }
    let mut i: usize = from;
    while i < s.len() && is_space_byte(s[i])
        invariant
            from <= i <= s@.len(),
            skip_spaces(s@, from as int) == skip_spaces(s@, i as int),
        decreases s@.len() - i,
    {
        i += 1;
    }
    i
}

/// The first index at or after `from` at which `s` holds whitespace, or the
/// length of `s`.
pub fn skip_token_in(s: &[u8], from: usize) -> (at: usize)
    ensures
        at == skip_token(s@, from as int),
        from <= s@.len() ==> from <= at <= s@.len(),
{
    if from >= s.len() {
        return s.len();
    }
    let mut i: usize = from;
    while i < s.len() && !is_space_byte(s[i])
        invariant
            from <= i <= s@.len(),
            skip_token(s@, from as int) == skip_token(s@, i as int),
        decreases s@.len() - i,
    {
        i += 1;
    }
    i
}

/// A copy of `s` without its leading and trailing whitespace.
pub fn trim_bytes(s: &[u8]) -> (out: Vec<u8>)
    ensures
        out@ == trim(s@),
{
    let start = skip_spaces_in(s, 0);
    let mut end: usize = s.len();
    while end > start && is_space_byte(s[end - 1])
        invariant
            start <= end <= s@.len(),
            trim(s@) == trim_end(s@.subrange(start as int, end as int)),
        decreases end,
    {
        assert(s@.subrange(start as int, end as int).drop_last() =~= s@.subrange(
            start as int,
            end - 1,
        ));
        end -= 1;
    }
    copy_range(s, start, end)
}

/// A copy of `s` without its trailing NUL bytes.
pub fn strip_nul_bytes(s: &[u8]) -> (out: Vec<u8>)
    ensures
        out@ == strip_nuls(s@),
{
    let mut end: usize = s.len();
    assert(s@.subrange(0, end as int) =~= s@);
    while end > 0 && s[end - 1] == NUL
        invariant
            end <= s@.len(),
            strip_nuls(s@) == strip_nuls(s@.subrange(0, end as int)),
        decreases end,
    {
        assert(s@.subrange(0, end as int).drop_last() =~= s@.subrange(0, end - 1));
        end -= 1;
    }
    copy_range(s, 0, end)
}

/// Appends `n` in decimal to `out`.
pub fn push_decimal(out: &mut Vec<u8>, n: usize)
    ensures
        final(out)@ == old(out)@ + decimal(n as nat),
    decreases n,
{
    if n >= 10 {
        push_decimal(out, n / 10);
    }
    let d: u8 = (n % 10) as u8;
    out.push(48 + d);
}

/// `n` in decimal, most significant digit first, without leading zeros.
pub fn decimal_bytes(n: usize) -> (out: Vec<u8>)
    ensures
        out@ == decimal(n as nat),
{
    let mut out: Vec<u8> = Vec::new();
    push_decimal(&mut out, n);
    out
}

} // verus!
