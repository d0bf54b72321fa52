use vstd::prelude::*;
use vstd::utf8::encode_utf8;

verus! {

/// `suffix` is a byte suffix of `s`, as `str::ends_with` decides it.
pub open spec fn ends_with(s: Seq<u8>, suffix: Seq<u8>) -> bool {
    suffix.len() <= s.len() && s.subrange(s.len() - suffix.len(), s.len() as int) == suffix
}

/// The UTF-8 bytes of a text.
pub open spec fn utf8(s: Seq<char>) -> Seq<u8> {
    encode_utf8(s)
}

/// The texts of a sequence of strings.
pub open spec fn texts(v: Seq<String>) -> Seq<Seq<char>> {
    v.map_values(|s: String| s@)
}

/// Decides whether `s` ends with the bytes `suffix[start..]`.
pub fn ends_with_from(s: &[u8], suffix: &[u8], start: usize) -> (r: bool)
    requires
        start <= suffix@.len(),
    ensures
        r == ends_with(s@, suffix@.subrange(start as int, suffix@.len() as int)),
{
    let n = suffix.len() - start;
    if n > s.len() {
        return false;
    }
    let s_len = s.len();
    let suffix_len = suffix.len();
    let offset = s_len - n;
    let mut i: usize = 0;
    while i < n
        invariant
            start <= suffix@.len(),
            n == suffix@.len() - start,
            n <= s@.len(),
            offset + n == s@.len(),
            s_len == s@.len(),
            suffix_len == suffix@.len(),
            start + n == suffix@.len(),
            i <= n,
            s@.subrange(offset as int, offset + i) =~= suffix@.subrange(start as int, start + i),
        decreases n - i,
    {
        if s[offset + i] != suffix[start + i] {
            assert(s@.subrange(s@.len() - n, s@.len() as int)[i as int] != suffix@.subrange(
                start as int,
                suffix@.len() as int,
            )[i as int]);
            return false;
        }
        assert(s@.subrange(offset as int, offset + i + 1) =~= s@.subrange(offset as int, offset + i).push(s@[offset + i]));
        assert(suffix@.subrange(start as int, start + i + 1) =~= suffix@.subrange(start as int, start + i).push(suffix@[start + i]));
        i = i + 1;
    }
    assert(s@.subrange(s@.len() - n, s@.len() as int) =~= suffix@.subrange(
        start as int,
        suffix@.len() as int,
    ));
    true
}

/// Decides whether `s` ends with `suffix`.
pub fn bytes_end_with(s: &[u8], suffix: &[u8]) -> (r: bool)
    ensures
        r == ends_with(s@, suffix@),
{
    assert(suffix@.subrange(0, suffix@.len() as int) =~= suffix@);
    ends_with_from(s, suffix, 0)
}

/// Decides whether two byte strings are equal.
pub fn bytes_equal(a: &[u8], b: &[u8]) -> (r: bool)
    ensures
        r == (a@ == b@),
{
    if a.len() != b.len() {
        return false;
    }
    let mut i: usize = 0;
    while i < a.len()
        invariant
            a@.len() == b@.len(),
            i <= a@.len(),
            forall|j: int| 0 <= j < i ==> a@[j] == b@[j],
        decreases a@.len() - i,
    {
        if a[i] != b[i] {
            return false;
        }
        i = i + 1;
    }
    assert(a@ =~= b@);
    true
}

} // verus!
