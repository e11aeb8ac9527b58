//! Byte-level scanning primitives shared by the frame matchers and the field
//! decoders.
//!
//! Everything here works on a buffer that may still be growing: a literal that
//! has only partly arrived is reported as [`TagMatch::Incomplete`], never as a
//! mismatch, so that a caller can come back with more bytes.
use vstd::prelude::*;
use vstd::slice::slice_subrange;
use vstd::string::StringSliceAdditionalSpecFns;

verus! {

/// Result of comparing a literal against the bytes found at one offset.
#[derive(Clone, Copy, Debug, PartialEq, Eq, Structural)]
pub enum TagMatch {
    /// Every byte of the literal is present and equal.
    Matched,
    /// The buffer ends inside the literal and agrees with it so far.
    Incomplete,
    /// Some byte that is present differs from the literal.
    Mismatch,
}

/// The line terminator.
pub open spec fn crlf() -> Seq<u8> {
    "\r\n".spec_bytes()
}

/// The line terminator is a carriage return and a line feed.
pub proof fn lemma_crlf()
    ensures
        crlf() == seq![0x0Du8, 0x0Au8],
        crlf().len() == 2,
{
    reveal_strlit("\r\n");
    vstd::string::is_ascii_spec_bytes("\r\n");
    assert(crlf() =~= seq![0x0Du8, 0x0Au8]);
}

/// The number of bytes of a literal of length `tag_len` that a buffer of
/// length `len` can show at offset `at`.
pub open spec fn available(len: int, at: int, tag_len: int) -> int {
    if len - at < tag_len {
        len - at
    } else {
        tag_len
    }
}

/// Streaming comparison of `tag` with `s` at offset `at`.
pub open spec fn tag_at(s: Seq<u8>, at: int, tag: Seq<u8>) -> TagMatch
    recommends
        0 <= at <= s.len(),
{
    let n = available(s.len() as int, at, tag.len() as int);
    if s.subrange(at, at + n) != tag.subrange(0, n) {
        TagMatch::Mismatch
    } else if n < tag.len() {
        TagMatch::Incomplete
    } else {
        TagMatch::Matched
    }
}

/// `pat` stands in `s` at offset `at`, in full.
pub open spec fn occurs_at(s: Seq<u8>, pat: Seq<u8>, at: int) -> bool {
    &&& 0 <= at
    &&& at + pat.len() <= s.len()
    &&& s.subrange(at, at + pat.len()) == pat
}

/// The least offset at or after `from` at which `pat` stands in `s`.
pub open spec fn first_occurrence(s: Seq<u8>, pat: Seq<u8>, from: int) -> Option<int>
    decreases s.len() - from + 1,
{
    if from < 0 || from + pat.len() > s.len() {
        None
    } else if occurs_at(s, pat, from) {
        Some(from)
    } else {
        first_occurrence(s, pat, from + 1)
    }
}

/// The least offset at or after `from` that holds the byte `b`.
pub open spec fn first_byte(s: Seq<u8>, b: u8, from: int) -> Option<int>
    decreases s.len() - from,
{
    if from < 0 || from >= s.len() {
        None
    } else if s[from] == b {
        Some(from)
    } else {
        first_byte(s, b, from + 1)
    }
}

/// ASCII letters and digits.
pub open spec fn is_alphanumeric(b: u8) -> bool {
    ||| 0x30 <= b <= 0x39
    ||| 0x41 <= b <= 0x5A
    ||| 0x61 <= b <= 0x7A
}

/// The least offset at or after `from` that holds a byte which is no ASCII
/// letter or digit.
pub open spec fn first_non_alphanumeric(s: Seq<u8>, from: int) -> Option<int>
    decreases s.len() - from,
{
    if from < 0 || from >= s.len() {
        None
    } else if !is_alphanumeric(s[from]) {
        Some(from)
    } else {
        first_non_alphanumeric(s, from + 1)
    }
}

/// Space, tab, line feed, form feed and carriage return.
pub open spec fn is_ascii_whitespace(b: u8) -> bool {
    b == 0x20 || b == 0x09 || b == 0x0A || b == 0x0C || b == 0x0D
}

/// `s` without its leading ASCII whitespace.
pub open spec fn trim_start(s: Seq<u8>) -> Seq<u8>
    decreases s.len(),
{
    if s.len() > 0 && is_ascii_whitespace(s[0]) {
        trim_start(s.drop_first())
    } else {
        s
    }
}

/// `s` without its trailing ASCII whitespace.
pub open spec fn trim_end(s: Seq<u8>) -> Seq<u8>
    decreases s.len(),
{
    if s.len() > 0 && is_ascii_whitespace(s.last()) {
        trim_end(s.drop_last())
    } else {
        s
    }
}

/// `s` without leading and trailing ASCII whitespace.
pub open spec fn trim_ascii(s: Seq<u8>) -> Seq<u8> {
    trim_end(trim_start(s))
}

/// What is left of `s` after trimming is a stretch of `s`.
pub proof fn lemma_trim_is_subrange(s: Seq<u8>) -> (r: (int, int))
    ensures
        0 <= r.0 <= r.1 <= s.len(),
        trim_ascii(s) == s.subrange(r.0, r.1),
{
    let a = lemma_trim_start_is_suffix(s);
    let t = s.subrange(a, s.len() as int);
    let b = lemma_trim_end_is_prefix(t);
    assert(t.subrange(0, b) =~= s.subrange(a, a + b));
    (a, a + b)
}

proof fn lemma_trim_start_is_suffix(s: Seq<u8>) -> (a: int)
    ensures
        0 <= a <= s.len(),
        trim_start(s) == s.subrange(a, s.len() as int),
    decreases s.len(),
{
    if s.len() > 0 && is_ascii_whitespace(s[0]) {
        let a = lemma_trim_start_is_suffix(s.drop_first());
        assert(s.drop_first().subrange(a, s.len() - 1) =~= s.subrange(a + 1, s.len() as int));
        a + 1
    } else {
        assert(s.subrange(0, s.len() as int) =~= s);
        0
    }
}

proof fn lemma_trim_end_is_prefix(s: Seq<u8>) -> (b: int)
    ensures
        0 <= b <= s.len(),
        trim_end(s) == s.subrange(0, b),
    decreases s.len(),
{
    if s.len() > 0 && is_ascii_whitespace(s.last()) {
        let b = lemma_trim_end_is_prefix(s.drop_last());
        assert(s.drop_last().subrange(0, b) =~= s.subrange(0, b));
        b
    } else {
        assert(s.subrange(0, s.len() as int) =~= s);
        s.len() as int
    }
}

/// What `first_occurrence` finds is an occurrence, and none stands before it.
pub proof fn lemma_first_occurrence_some(s: Seq<u8>, pat: Seq<u8>, from: int)
    requires
        first_occurrence(s, pat, from) is Some,
    ensures
        from <= first_occurrence(s, pat, from)->0,
        occurs_at(s, pat, first_occurrence(s, pat, from)->0),
        forall|q: int|
            from <= q < first_occurrence(s, pat, from)->0 ==> !occurs_at(s, pat, q),
    decreases s.len() - from + 1,
{
    if !occurs_at(s, pat, from) {
        lemma_first_occurrence_some(s, pat, from + 1);
    }
}

/// What `first_non_alphanumeric` finds lies inside the buffer at or after
/// `from`, is no letter or digit, and only letters and digits stand before it.
pub proof fn lemma_first_non_alphanumeric_some(s: Seq<u8>, from: int)
    requires
        first_non_alphanumeric(s, from) is Some,
    ensures
        0 <= from <= first_non_alphanumeric(s, from)->0 < s.len(),
        !is_alphanumeric(s[first_non_alphanumeric(s, from)->0]),
        forall|i: int|
            from <= i < first_non_alphanumeric(s, from)->0 ==> is_alphanumeric(s[i]),
    decreases s.len() - from,
{
    if is_alphanumeric(s[from]) {
        lemma_first_non_alphanumeric_some(s, from + 1);
    }
}

/// An occurrence with none before it is the one `first_occurrence` finds.
pub proof fn lemma_first_occurrence_is(s: Seq<u8>, pat: Seq<u8>, from: int, p: int)
    requires
        0 <= from <= p,
        occurs_at(s, pat, p),
        forall|q: int| from <= q < p ==> !occurs_at(s, pat, q),
    ensures
        first_occurrence(s, pat, from) == Some(p),
    decreases p - from,
{
    if from < p {
        lemma_first_occurrence_is(s, pat, from + 1, p);
    }
}

/// An occurrence inside a prefix of `s` is one inside `s`, and the other way
/// round where the prefix is long enough to hold it.
pub proof fn lemma_occurs_at_prefix(s: Seq<u8>, pat: Seq<u8>, at: int, k: int)
    requires
        0 <= at,
        at + pat.len() <= k <= s.len(),
    ensures
        occurs_at(s.subrange(0, k), pat, at) == occurs_at(s, pat, at),
{
    assert(s.subrange(0, k).subrange(at, at + pat.len()) =~= s.subrange(at, at + pat.len()));
}

/// Compares `tag` with the bytes of `buf` at offset `at`.
pub fn match_tag(buf: &[u8], at: usize, tag: &[u8]) -> (r: TagMatch)
    requires
        at <= buf@.len(),
    ensures
        r == tag_at(buf@, at as int, tag@),
        r is Matched ==> at + tag@.len() <= buf@.len() <= usize::MAX,
{
    let rest: usize = buf.len() - at;
    let n: usize = if rest < tag.len() {
        rest
    } else {
        tag.len()
    };
    let mut i: usize = 0;
    while i < n
        invariant
            at <= buf@.len() <= usize::MAX,
            n == available(buf@.len() as int, at as int, tag@.len() as int),
            i <= n,
            buf@.subrange(at as int, at + i) == tag@.subrange(0, i as int),
        decreases n - i,
    {
        if buf[at + i] != tag[i] {
            proof {
                let a = buf@.subrange(at as int, at + n);
                let b = tag@.subrange(0, n as int);
                assert(a[i as int] != b[i as int]);
            }
            return TagMatch::Mismatch;
        }
        proof {
            assert(buf@.subrange(at as int, at + i + 1) =~= buf@.subrange(at as int, at + i).push(
                buf@[at + i],
            ));
            assert(tag@.subrange(0, i + 1) =~= tag@.subrange(0, i as int).push(tag@[i as int]));
        }
        i = i + 1;
    }
    if n < tag.len() {
        TagMatch::Incomplete
    } else {
        TagMatch::Matched
    }
}

/// Finds the first place at or after `from` where `pat` stands in `buf`.
pub fn find_first(buf: &[u8], pat: &[u8], from: usize) -> (r: Option<usize>)
    ensures
        match r {
            Some(p) => first_occurrence(buf@, pat@, from as int) == Some(p as int) && from <= p
                && p + pat@.len() <= buf@.len() <= usize::MAX,
            None => first_occurrence(buf@, pat@, from as int) is None,
        },
{
    if pat.len() > buf.len() || from > buf.len() - pat.len() {
        return None;
    }
    let last: usize = buf.len() - pat.len();
    let mut i: usize = from;
    loop
        invariant
            last == buf@.len() - pat@.len(),
            from <= i <= last,
            first_occurrence(buf@, pat@, from as int) == first_occurrence(buf@, pat@, i as int),
        decreases last - i,
    {
        let m = match_tag(buf, i, pat);
        assert(pat@.subrange(0, pat@.len() as int) =~= pat@);
        if m == TagMatch::Matched {
            return Some(i);
        }
        if i == last {
            assert(first_occurrence(buf@, pat@, i + 1) is None);
            return None;
        }
        i = i + 1;
    }
}

/// What `first_byte` finds lies inside `s` at or after `from` and holds `b`,
/// and `b` does not stand before it.
pub proof fn lemma_first_byte_some(s: Seq<u8>, b: u8, from: int)
    requires
        first_byte(s, b, from) is Some,
    ensures
        0 <= from <= first_byte(s, b, from)->0 < s.len(),
        s[first_byte(s, b, from)->0] == b,
        forall|i: int| from <= i < first_byte(s, b, from)->0 ==> s[i] != b,
    decreases s.len() - from,
{
    if s[from] != b {
        lemma_first_byte_some(s, b, from + 1);
    }
}

/// Finds the first byte `b` at or after `from`.
pub fn find_byte(buf: &[u8], b: u8, from: usize) -> (r: Option<usize>)
    ensures
        match r {
            Some(p) => first_byte(buf@, b, from as int) == Some(p as int) && from <= p < buf@.len(),
            None => first_byte(buf@, b, from as int) is None,
        },
{
    let mut i: usize = from;
    while i < buf.len()
        invariant
            from <= i,
            first_byte(buf@, b, from as int) == first_byte(buf@, b, i as int),
        decreases buf@.len() - i,
    {
        if buf[i] == b {
            return Some(i);
        }
        i = i + 1;
    }
    None
}

/// Appends `bytes` to `out`.
pub fn append(out: &mut Vec<u8>, bytes: &[u8])
    ensures
        final(out)@ == old(out)@ + bytes@,
{
    out.extend_from_slice(bytes);
    assert(final(out)@ =~= old(out)@ + bytes@);
}

/// A vector that holds `bytes`.
pub fn to_vec(bytes: &[u8]) -> (r: Vec<u8>)
    ensures
        r@ == bytes@,
{
    let mut r: Vec<u8> = Vec::new();
    append(&mut r, bytes);
    assert(r@ =~= bytes@);
    r
}

/// Tells whether two byte strings are the same.
pub fn same_bytes(a: &[u8], b: &[u8]) -> (r: bool)
    ensures
        r == (a@ == b@),
{
    if a.len() != b.len() {
        return false;
    }
    let m = match_tag(a, 0, b);
    proof {
        assert(a@.subrange(0, a@.len() as int) =~= a@);
        assert(b@.subrange(0, b@.len() as int) =~= b@);
    }
    m == TagMatch::Matched
}

/// Tells whether `b` is an ASCII letter or digit.
pub fn byte_is_alphanumeric(b: u8) -> (r: bool)
    ensures
        r == is_alphanumeric(b),
{
    (0x30 <= b && b <= 0x39) || (0x41 <= b && b <= 0x5A) || (0x61 <= b && b <= 0x7A)
}

/// Finds the first byte at or after `from` that is no ASCII letter or digit.
pub fn find_non_alphanumeric(buf: &[u8], from: usize) -> (r: Option<usize>)
    ensures
        match r {
            Some(p) => first_non_alphanumeric(buf@, from as int) == Some(p as int) && from <= p
                < buf@.len(),
            None => first_non_alphanumeric(buf@, from as int) is None,
        },
{
    let mut i: usize = from;
    while i < buf.len()
        invariant
            from <= i,
            first_non_alphanumeric(buf@, from as int) == first_non_alphanumeric(buf@, i as int),
        decreases buf@.len() - i,
    {
        if !byte_is_alphanumeric(buf[i]) {
            return Some(i);
        }
        i = i + 1;
    }
    None
}

/// Tells whether `b` is ASCII whitespace.
pub fn byte_is_whitespace(b: u8) -> (r: bool)
    ensures
        r == is_ascii_whitespace(b),
{
    b == 0x20 || b == 0x09 || b == 0x0A || b == 0x0C || b == 0x0D
}

/// The part of `buf` that is left when leading ASCII whitespace is taken
/// away.
pub fn skip_whitespace(buf: &[u8]) -> (r: &[u8])
    ensures
        r@ == trim_start(buf@),
{
    let mut start: usize = 0;
    assert(buf@.subrange(0, buf@.len() as int) =~= buf@);
    while start < buf.len() && byte_is_whitespace(buf[start])
        invariant
            start <= buf@.len(),
            trim_start(buf@) == trim_start(buf@.subrange(start as int, buf@.len() as int)),
        decreases buf@.len() - start,
    {
        proof {
            let t = buf@.subrange(start as int, buf@.len() as int);
            assert(t.drop_first() =~= buf@.subrange(start + 1, buf@.len() as int));
        }
        start = start + 1;
    }
    slice_subrange(buf, start, buf.len())
}

/// The part of `buf` that is left when leading and trailing ASCII whitespace
/// is taken away.
pub fn trim(buf: &[u8]) -> (r: &[u8])
    ensures
        r@ == trim_ascii(buf@),
{
    let mut start: usize = 0;
    assert(buf@.subrange(0, buf@.len() as int) =~= buf@);
    while start < buf.len() && byte_is_whitespace(buf[start])
        invariant
            start <= buf@.len(),
            trim_start(buf@) == trim_start(buf@.subrange(start as int, buf@.len() as int)),
        decreases buf@.len() - start,
    {
        proof {
            let t = buf@.subrange(start as int, buf@.len() as int);
            assert(t.drop_first() =~= buf@.subrange(start + 1, buf@.len() as int));
        }
        start = start + 1;
    }
    let mut end: usize = buf.len();
    while end > start && byte_is_whitespace(buf[end - 1])
        invariant
            start <= end <= buf@.len(),
            trim_start(buf@) == buf@.subrange(start as int, buf@.len() as int),
            trim_ascii(buf@) == trim_end(buf@.subrange(start as int, end as int)),
        decreases end - start,
    {
        proof {
            let t = buf@.subrange(start as int, end as int);
            assert(t.drop_last() =~= buf@.subrange(start as int, end - 1));
        }
        end = end - 1;
    }
    slice_subrange(buf, start, end)
}

} // verus!
