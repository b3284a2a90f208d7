//! Texts as sequences of characters: containment without regard to case,
//! and the order of code points.

use vstd::prelude::*;

verus! {

/// The lower-case form of a text as the standard library computes it
/// (`str::to_lowercase`), which follows the Unicode case mappings.
pub uninterp spec fn lowercase(s: Seq<char>) -> Seq<char>;

/// `needle` stands in `hay` at position `at`.
pub open spec fn occurs_at(hay: Seq<char>, needle: Seq<char>, at: int) -> bool {
    0 <= at && at + needle.len() <= hay.len() && hay.subrange(at, at + needle.len()) == needle
}

/// `needle` stands somewhere in `hay`.
pub open spec fn is_substring(hay: Seq<char>, needle: Seq<char>) -> bool {
    exists|at: int| occurs_at(hay, needle, at)
}

/// `needle` stands somewhere in `hay` once both are in lower case.
pub open spec fn contains_ci(hay: Seq<char>, needle: Seq<char>) -> bool {
    is_substring(lowercase(hay), lowercase(needle))
}

/// `a` comes before `b` in the order of their code points, the shorter of two
/// texts first where one begins the other.
pub open spec fn lex_less(a: Seq<char>, b: Seq<char>) -> bool
    decreases a.len(),
{
    if b.len() == 0 {
        false
    } else if a.len() == 0 {
        true
    } else if a[0] != b[0] {
        (a[0] as int) < (b[0] as int)
    } else {
        lex_less(a.subrange(1, a.len() as int), b.subrange(1, b.len() as int))
    }
}

/// Calls `str::to_lowercase`. Trusted: the result is the lower-case form of
/// the argument, and the empty text stays empty.
#[verifier::external_body]
pub(crate) fn to_lower(s: &str) -> (r: String)
    ensures
        r@ == lowercase(s@),
        s@.len() == 0 ==> r@.len() == 0,
{
    s.to_lowercase()
}

/// Calls `str::contains` with a text as the pattern. Trusted: the result
/// says whether the pattern matches a sub-slice of the text.
#[verifier::external_body]
pub(crate) fn has_substring(hay: &str, needle: &str) -> (r: bool)
    ensures
        r == is_substring(hay@, needle@),
{
    hay.contains(needle)
}

/// Calls `==` of `str`. Trusted: two texts are equal when they hold the same
/// characters.
#[verifier::external_body]
pub(crate) fn same_text(a: &str, b: &str) -> (r: bool)
    ensures
        r == (a@ == b@),
{
    a == b
}

/// Calls `<` of `str`. Trusted: texts are ordered lexicographically by their
/// bytes, which is the order of their code points.
#[verifier::external_body]
pub(crate) fn text_before(a: &str, b: &str) -> (r: bool)
    ensures
        r == lex_less(a@, b@),
{
    a < b
}

/// Case-insensitive containment of `needle` in `hay`.
pub fn contains_ignoring_case(hay: &str, needle: &str) -> (r: bool)
    ensures
        r == contains_ci(hay@, needle@),
{
    let folded_hay = to_lower(hay);
    let folded_needle = to_lower(needle);
    has_substring(folded_hay.as_str(), folded_needle.as_str())
}

/// Of two texts at most one comes before the other.
pub proof fn lex_less_asymmetric(a: Seq<char>, b: Seq<char>)
    ensures
        !(lex_less(a, b) && lex_less(b, a)),
    decreases a.len(),
{
    if a.len() > 0 && b.len() > 0 && a[0] == b[0] {
        lex_less_asymmetric(a.subrange(1, a.len() as int), b.subrange(1, b.len() as int));
    }
}

/// Of two different texts one comes before the other.
pub proof fn lex_less_total(a: Seq<char>, b: Seq<char>)
    ensures
        a == b || lex_less(a, b) || lex_less(b, a),
    decreases a.len(),
{
    if a.len() == 0 || b.len() == 0 {
        if a.len() == 0 && b.len() == 0 {
            assert(a =~= b);
        }
    } else if a[0] == b[0] {
        let ta = a.subrange(1, a.len() as int);
        let tb = b.subrange(1, b.len() as int);
        lex_less_total(ta, tb);
        if ta == tb {
            assert(a =~= seq![a[0]] + ta);
            assert(b =~= seq![b[0]] + tb);
        }
    }
}

/// What comes before a text comes before everything after that text.
pub proof fn lex_less_transitive(a: Seq<char>, b: Seq<char>, c: Seq<char>)
    requires
        lex_less(a, b),
        lex_less(b, c),
    ensures
        lex_less(a, c),
    decreases a.len(),
{
    if a.len() > 0 && a[0] == b[0] && b[0] == c[0] {
        lex_less_transitive(
            a.subrange(1, a.len() as int),
            b.subrange(1, b.len() as int),
            c.subrange(1, c.len() as int),
        );
    }
}

/// The empty text is contained in every text.
pub proof fn empty_is_substring(hay: Seq<char>)
    ensures
        is_substring(hay, Seq::<char>::empty()),
{
    assert(hay.subrange(0, 0) =~= Seq::<char>::empty());
    assert(occurs_at(hay, Seq::<char>::empty(), 0));
}

} // verus!
