//! Character-sequence helpers: verified equality and lexicographic order,
//! and trusted bridges to std's Unicode case folding and trimming.
use vstd::prelude::*;

verus! {

/// Lexicographic strict order on character sequences, comparing code points
/// from position `i` on.
pub open spec fn spec_str_lt_from(a: Seq<char>, b: Seq<char>, i: int) -> bool
    decreases b.len() - i,
{
    if i >= b.len() {
        false
    } else if i >= a.len() {
        true
    } else if (a[i] as int) < (b[i] as int) {
        true
    } else if a[i] == b[i] {
        spec_str_lt_from(a, b, i + 1)
    } else {
        false
    }
}

/// Lexicographic strict order on character sequences by code point.
pub open spec fn spec_str_lt(a: Seq<char>, b: Seq<char>) -> bool {
    spec_str_lt_from(a, b, 0)
}

/// Whether `needle` occurs contiguously inside `hay`.
pub open spec fn spec_str_contains(hay: Seq<char>, needle: Seq<char>) -> bool {
    exists|i: int|
        0 <= i && i + needle.len() <= hay.len() && #[trigger] hay.subrange(i, i + needle.len())
            == needle
}

/// Character-wise equality of two string slices.
pub fn str_eq(a: &str, b: &str) -> (r: bool)
    ensures
        r == (a@ == b@),
{
    let an: usize = a.unicode_len();
    let bn: usize = b.unicode_len();
    if an != bn {
        return false;
    }
    let mut i: usize = 0;
    while i < an
        invariant
            an == a@.len(),
            an == b@.len(),
            i <= an,
            forall|k: int| 0 <= k < i ==> a@[k] == b@[k],
        decreases an - i,
    {
        let ca = a.get_char(i);
        let cb = b.get_char(i);
        if ca != cb {
            return false;
        }
        i = i + 1;
    }
    proof {
        assert(a@ =~= b@);
    }
    true
}

/// Lexicographic strict comparison of two string slices by code point.
pub fn str_lt(a: &str, b: &str) -> (r: bool)
    ensures
        r == spec_str_lt(a@, b@),
{
    let an: usize = a.unicode_len();
    let bn: usize = b.unicode_len();
    let mut i: usize = 0;
    loop
        invariant
            an == a@.len(),
            bn == b@.len(),
            i <= an,
            i <= bn,
            spec_str_lt(a@, b@) == spec_str_lt_from(a@, b@, i as int),
        decreases bn - i,
    {
        if i >= bn {
            return false;
        }
        if i >= an {
            return true;
        }
        let ca = a.get_char(i);
        let cb = b.get_char(i);
        if (ca as u32) < (cb as u32) {
            return true;
        }
        if ca != cb {
            return false;
        }
        i = i + 1;
    }
}

proof fn lemma_str_lt_from_trans(a: Seq<char>, b: Seq<char>, c: Seq<char>, i: int)
    requires
        0 <= i,
        spec_str_lt_from(a, b, i),
        spec_str_lt_from(b, c, i),
    ensures
        spec_str_lt_from(a, c, i),
    decreases c.len() - i,
{
    if i < a.len() && i < b.len() && a[i] == b[i] && i < c.len() && b[i] == c[i] {
        lemma_str_lt_from_trans(a, b, c, i + 1);
    }
}

/// The lexicographic order is transitive.
pub proof fn lemma_str_lt_trans(a: Seq<char>, b: Seq<char>, c: Seq<char>)
    requires
        spec_str_lt(a, b),
        spec_str_lt(b, c),
    ensures
        spec_str_lt(a, c),
{
    lemma_str_lt_from_trans(a, b, c, 0);
}

proof fn lemma_str_lt_from_total(a: Seq<char>, b: Seq<char>, i: int)
    requires
        0 <= i <= a.len(),
        i <= b.len(),
        !spec_str_lt_from(a, b, i),
        !spec_str_lt_from(b, a, i),
    ensures
        a.len() == b.len(),
        forall|j: int| i <= j < a.len() ==> a[j] == b[j],
    decreases a.len() - i,
{
    if i < a.len() && i < b.len() {
        assert(!((a[i] as int) < (b[i] as int)));
        assert(!((b[i] as int) < (a[i] as int)));
        assert(a[i] == b[i]);
        lemma_str_lt_from_total(a, b, i + 1);
    }
}

/// The lexicographic order is total: two strings are ordered one way or
/// the other, or they are equal.
pub proof fn lemma_str_lt_total(a: Seq<char>, b: Seq<char>)
    ensures
        spec_str_lt(a, b) || spec_str_lt(b, a) || a == b,
{
    if !spec_str_lt(a, b) && !spec_str_lt(b, a) {
        lemma_str_lt_from_total(a, b, 0);
        assert(a =~= b);
    }
}

/// The Unicode uppercase folding of a string, as computed by std.
pub uninterp spec fn spec_upper(s: Seq<char>) -> Seq<char>;

/// The Unicode lowercase folding of a string, as computed by std.
pub uninterp spec fn spec_lower(s: Seq<char>) -> Seq<char>;

/// A string with leading and trailing whitespace removed, as computed by std.
pub uninterp spec fn spec_trim(s: Seq<char>) -> Seq<char>;

/// Relies on `str::to_uppercase`: the result depends on the characters alone.
#[verifier::external_body]
pub fn str_to_upper(s: &str) -> (r: String)
    ensures
        r@ == spec_upper(s@),
{
    s.to_uppercase()
}

/// Relies on `str::to_lowercase`: the result depends on the characters alone.
#[verifier::external_body]
pub fn str_to_lower(s: &str) -> (r: String)
    ensures
        r@ == spec_lower(s@),
{
    s.to_lowercase()
}

/// Relies on `str::trim`: removes leading and trailing Unicode whitespace,
/// a function of the characters alone.
#[verifier::external_body]
pub fn str_trim(s: &str) -> (r: String)
    ensures
        r@ == spec_trim(s@),
{
    s.trim().to_owned()
}

/// Relies on `String::push`: appends a single character.
#[verifier::external_body]
pub fn string_push(s: &mut String, c: char)
    ensures
        final(s)@ == old(s)@.push(c),
{
    s.push(c);
}

/// Relies on `str::contains`: whether the needle occurs as a contiguous
/// substring of the haystack.
#[verifier::external_body]
pub fn str_contains(hay: &str, needle: &str) -> (r: bool)
    ensures
        r == spec_str_contains(hay@, needle@),
{
    hay.contains(needle)
}

} // verus!
