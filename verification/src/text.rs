//! Small tools for the text of a header: white space, trimming, searching
//! and comparing.

use vstd::prelude::*;

verus! {

/// Whether a byte is white space. Each byte stands for the character with
/// the same code point: the control characters from tab to carriage
/// return, the space, the next-line character and the no-break space.
pub open spec fn spec_is_space(b: u8) -> bool {
    (9 <= b <= 13) || b == 32 || b == 0x85 || b == 0xa0
}

/// See [`spec_is_space`].
#[verifier::when_used_as_spec(spec_is_space)]
pub fn is_space(b: u8) -> (r: bool)
    ensures
        r == spec_is_space(b),
{
    (9 <= b && b <= 13) || b == 32 || b == 0x85 || b == 0xa0
}

/// What is left of `s` after its leading white space is removed.
pub open spec fn trim_start(s: Seq<u8>) -> Seq<u8>
    decreases s.len(),
{
    if s.len() > 0 && spec_is_space(s.first()) {
        trim_start(s.drop_first())
    } else {
        s
    }
}

/// What is left of `s` after its trailing white space is removed.
pub open spec fn trim_end(s: Seq<u8>) -> Seq<u8>
    decreases s.len(),
{
    if s.len() > 0 && spec_is_space(s.last()) {
        trim_end(s.drop_last())
    } else {
        s
    }
}

/// `s` without the white space at either end.
pub open spec fn spec_trim(s: Seq<u8>) -> Seq<u8> {
    trim_end(trim_start(s))
}

/// The part of `s` between its leading and its trailing white space.
pub fn trim(s: &[u8]) -> (r: &[u8])
    ensures
        r@ == spec_trim(s@),
{
    let mut a: usize = 0;
    assert(s@.skip(0) =~= s@);
    while a < s.len() && is_space(s[a])
        invariant
            a <= s.len(),
            trim_start(s@) == trim_start(s@.skip(a as int)),
        decreases s.len() - a,
    {
        assert(s@.skip(a as int).drop_first() =~= s@.skip(a + 1));
        a += 1;
    }
    let mut b: usize = s.len();
    assert(s@.skip(a as int) =~= s@.subrange(a as int, b as int));
    while b > a && is_space(s[b - 1])
        invariant
            a <= b <= s.len(),
            trim_start(s@) == s@.skip(a as int),
            spec_trim(s@) == trim_end(s@.subrange(a as int, b as int)),
        decreases b,
    {
        assert(s@.subrange(a as int, b as int).drop_last() =~= s@.subrange(a as int, b - 1));
        b -= 1;
    }
    vstd::slice::slice_subrange(s, a, b)
}

/// The index of the first `b` in `s`, or the length of `s` where it holds
/// none.
pub open spec fn first_index(s: Seq<u8>, b: u8) -> nat
    decreases s.len(),
{
    if s.len() == 0 || s.first() == b {
        0
    } else {
        1 + first_index(s.drop_first(), b)
    }
}

/// Up to `first_index` the byte `b` does not occur, and at it, where it
/// lies inside `s`, `b` stands.
pub proof fn first_index_is_first(s: Seq<u8>, b: u8)
    ensures
        first_index(s, b) <= s.len(),
        first_index(s, b) < s.len() ==> s[first_index(s, b) as int] == b,
        forall|j: int| 0 <= j < first_index(s, b) ==> s[j] != b,
    decreases s.len(),
{
    if s.len() == 0 || s.first() == b {
    } else {
        first_index_is_first(s.drop_first(), b);
        assert forall|j: int| 0 <= j < first_index(s, b) implies s[j] != b by {
            if j > 0 {
                assert(s.drop_first()[j - 1] == s[j]);
            }
        }
    }
}

/// A position up to which `b` does not occur and at which, where it lies
/// inside `s`, `b` stands is `first_index`.
pub proof fn first_index_is(s: Seq<u8>, b: u8, i: int)
    requires
        0 <= i <= s.len(),
        i < s.len() ==> s[i] == b,
        forall|j: int| 0 <= j < i ==> s[j] != b,
    ensures
        first_index(s, b) == i,
{
    first_index_is_first(s, b);
    let at = first_index(s, b) as int;
    if at < i {
        assert(s[at] != b);
    }
}

/// Where the first `b` of `s` stands, if there is one.
pub fn find_byte(s: &[u8], b: u8) -> (r: Option<usize>)
    ensures
        match r {
            Some(i) => i < s@.len() && i == first_index(s@, b),
            None => first_index(s@, b) == s@.len(),
        },
{
    let mut i: usize = 0;
    while i < s.len()
        invariant
            i <= s.len(),
            forall|j: int| 0 <= j < i ==> s@[j] != b,
        decreases s.len() - i,
    {
        if s[i] == b {
            proof {
                first_index_is(s@, b, i as int);
            }
            return Some(i);
        }
        i += 1;
    }
    proof {
        first_index_is(s@, b, i as int);
    }
    None
}

/// Whether two byte strings hold the same bytes.
pub fn bytes_eq(a: &[u8], b: &[u8]) -> (r: bool)
    ensures
        r == (a@ == b@),
{
    if a.len() != b.len() {
        return false;
    }
    let mut i: usize = 0;
    while i < a.len()
        invariant
            i <= a.len(),
            a.len() == b.len(),
            forall|j: int| 0 <= j < i ==> a@[j] == b@[j],
        decreases a.len() - i,
    {
        if a[i] != b[i] {
            return false;
        }
        i += 1;
    }
    assert(a@ =~= b@);
    true
}

/// Two strings are written with the same bytes exactly when they are the
/// same string.
pub proof fn same_text_same_bytes(a: Seq<char>, b: Seq<char>)
    ensures
        (vstd::utf8::encode_utf8(a) == vstd::utf8::encode_utf8(b)) <==> a == b,
{
    vstd::utf8::encode_utf8_decode_utf8(a);
    vstd::utf8::encode_utf8_decode_utf8(b);
}

} // verus!
