//! Text operations that the engine needs from the standard library, each with
//! the contract that the rest of the crate relies on.

use vstd::prelude::*;

verus! {

/// The lowercase equivalent of a text, as the standard library computes it.
pub uninterp spec fn lowercase_of(s: Seq<char>) -> Seq<char>;

/// A text without its leading and trailing whitespace, as the standard library
/// computes it.
pub uninterp spec fn trimmed_of(s: Seq<char>) -> Seq<char>;

/// `needle` occurs in `hay` starting at position `at`.
pub open spec fn occurs_at(hay: Seq<char>, needle: Seq<char>, at: int) -> bool {
    &&& 0 <= at
    &&& at + needle.len() <= hay.len()
    &&& hay.subrange(at, at + needle.len()) == needle
}

/// `needle` occurs somewhere in `hay`.
pub open spec fn has_substring(hay: Seq<char>, needle: Seq<char>) -> bool {
    exists|at: int| occurs_at(hay, needle, at)
}

/// `needle` occurs in `hay` at position `at` and nowhere before it.
pub open spec fn first_occurs_at(hay: Seq<char>, needle: Seq<char>, at: int) -> bool {
    &&& occurs_at(hay, needle, at)
    &&& forall|earlier: int| 0 <= earlier < at ==> !occurs_at(hay, needle, earlier)
}

/// `s` begins with `prefix`.
pub open spec fn has_prefix(s: Seq<char>, prefix: Seq<char>) -> bool {
    prefix.len() <= s.len() && s.subrange(0, prefix.len() as int) == prefix
}

/// `a` comes strictly before `b` when both are compared code point by code
/// point, a proper prefix coming first.
pub open spec fn precedes(a: Seq<char>, b: Seq<char>) -> bool
    decreases a.len(),
{
    if b.len() == 0 {
        false
    } else if a.len() == 0 {
        true
    } else if a[0] != b[0] {
        (a[0] as int) < (b[0] as int)
    } else {
        precedes(a.drop_first(), b.drop_first())
    }
}

/// No text comes before itself.
pub proof fn lemma_precedes_irreflexive(a: Seq<char>)
    ensures
        !precedes(a, a),
    decreases a.len(),
{
    if a.len() > 0 {
        lemma_precedes_irreflexive(a.drop_first());
    }
}

/// The order on texts is transitive.
pub proof fn lemma_precedes_transitive(a: Seq<char>, b: Seq<char>, c: Seq<char>)
    requires
        precedes(a, b),
        precedes(b, c),
    ensures
        precedes(a, c),
    decreases a.len(),
{
    if a.len() > 0 && a[0] == b[0] && b[0] == c[0] {
        lemma_precedes_transitive(a.drop_first(), b.drop_first(), c.drop_first());
    }
}

/// Of two different texts one comes before the other.
pub proof fn lemma_precedes_connected(a: Seq<char>, b: Seq<char>)
    requires
        a != b,
    ensures
        precedes(a, b) || precedes(b, a),
    decreases a.len(),
{
    if a.len() == 0 || b.len() == 0 {
        if a.len() == 0 && b.len() == 0 {
            assert(a =~= b);
        }
    } else if a[0] == b[0] {
        if a.drop_first() == b.drop_first() {
            assert(a =~= seq![a[0]] + a.drop_first());
            assert(b =~= seq![b[0]] + b.drop_first());
        }
        lemma_precedes_connected(a.drop_first(), b.drop_first());
    }
}

/// No two texts come before each other.
pub proof fn lemma_precedes_asymmetric(a: Seq<char>, b: Seq<char>)
    requires
        precedes(a, b),
    ensures
        !precedes(b, a),
        a != b,
{
    if precedes(b, a) {
        lemma_precedes_transitive(a, b, a);
    }
    lemma_precedes_irreflexive(a);
}

/// Calls `str::to_lowercase`. Nothing is claimed of the result beyond its
/// name: it is the Unicode lowercase of the argument and depends on the
/// argument alone.
#[verifier::external_body]
pub(crate) fn to_lowercase(s: &str) -> (r: String)
    ensures
        r@ == lowercase_of(s@),
{
    s.to_lowercase()
}

/// Calls `str::trim`. Nothing is claimed of the result beyond its name: it is
/// the argument without leading and trailing Unicode whitespace and depends on
/// the argument alone.
#[verifier::external_body]
pub(crate) fn trim(s: &str) -> (r: &str)
    ensures
        r@ == trimmed_of(s@),
{
    s.trim()
}

/// Calls `str::contains` with a string pattern, which reports whether the
/// pattern matches a sub-slice of the text.
#[verifier::external_body]
pub(crate) fn contains(hay: &str, needle: &str) -> (b: bool)
    ensures
        b == has_substring(hay@, needle@),
{
    hay.contains(needle)
}

/// Calls `==` on two string slices, which holds exactly when they hold the
/// same characters.
#[verifier::external_body]
pub(crate) fn same(a: &str, b: &str) -> (r: bool)
    ensures
        r == (a@ == b@),
{
    a == b
}

/// Calls `<` on two string slices. The standard library orders strings
/// lexicographically by their bytes, which orders them by their code points.
#[verifier::external_body]
pub(crate) fn comes_before(a: &str, b: &str) -> (r: bool)
    ensures
        r == precedes(a@, b@),
{
    a < b
}

/// Calls `str::starts_with` with a string pattern, which reports whether the
/// pattern matches a prefix of the text.
#[verifier::external_body]
pub(crate) fn starts_with(s: &str, prefix: &str) -> (b: bool)
    ensures
        b == has_prefix(s@, prefix@),
{
    s.starts_with(prefix)
}

/// Calls `str::split_once` with a string delimiter, which splits the text on
/// the first occurrence of the delimiter and returns what stands before it
/// and what stands after it, or nothing where the delimiter does not occur.
#[verifier::external_body]
pub(crate) fn split_once<'a>(s: &'a str, delimiter: &str) -> (r: Option<(&'a str, &'a str)>)
    ensures
        match r {
            Some((head, tail)) => {
                &&& first_occurs_at(s@, delimiter@, head@.len() as int)
                &&& head@ == s@.subrange(0, head@.len() as int)
                &&& tail@ == s@.subrange((head@.len() + delimiter@.len()) as int, s@.len() as int)
            },
            None => !has_substring(s@, delimiter@),
        },
{
    s.split_once(delimiter)
}

} // verus!
