//! The three string collations this library registers with SQLite when it
//! opens a GeoPackage: ignoring case, ignoring accents, and ignoring both.
//! Each compares two strings by the lexicographic order of their
//! characters once both are brought to the same form.

use crate::qstring::{seq_lt, text_lt};
use crate::unicode::{lowercase, to_lowercase, unaccent, unaccented};
use std::cmp::Ordering;
use vstd::prelude::*;

verus! {

/// The lexicographic order of two character sequences, by code point (the
/// order of `str` comparisons).
pub open spec fn text_order(a: Seq<char>, b: Seq<char>) -> Ordering {
    if seq_lt(a, b) {
        Ordering::Less
    } else if seq_lt(b, a) {
        Ordering::Greater
    } else {
        Ordering::Equal
    }
}

/// The lexicographic order is a strict total order: never both ways, and
/// neither way only between equal sequences.
pub proof fn lemma_seq_lt_total(a: Seq<char>, b: Seq<char>)
    ensures
        !(seq_lt(a, b) && seq_lt(b, a)),
        !seq_lt(a, b) && !seq_lt(b, a) ==> a == b,
    decreases a.len(),
{
    if a.len() == 0 && b.len() == 0 {
        assert(a =~= b);
    } else if a.len() > 0 && b.len() > 0 && a[0] == b[0] {
        lemma_seq_lt_total(a.skip(1), b.skip(1));
        if !seq_lt(a, b) && !seq_lt(b, a) {
            assert(a =~= seq![a[0]] + a.skip(1));
            assert(b =~= seq![b[0]] + b.skip(1));
        }
    }
}

/// Two texts compare as equal exactly when they are the same, and swapping
/// them reverses their order.
pub proof fn lemma_text_order(a: Seq<char>, b: Seq<char>)
    ensures
        (text_order(a, b) == Ordering::Equal) <==> (a == b),
        text_order(a, b) == Ordering::Less <==> text_order(b, a) == Ordering::Greater,
{
    lemma_seq_lt_total(a, b);
    if a == b {
        lemma_seq_lt_total(a, a);
    }
}

/// The order of two strings by their characters.
pub fn text_cmp(a: &str, b: &str) -> (r: Ordering)
    ensures
        r == text_order(a@, b@),
{
    if text_lt(a, b) {
        Ordering::Less
    } else if text_lt(b, a) {
        Ordering::Greater
    } else {
        Ordering::Equal
    }
}

/// Return the [Ordering] when comparing `a` to `b` ignoring case: the order
/// of their lower-case forms.
pub fn cmp_ci(a: &str, b: &str) -> (r: Ordering)
    ensures
        r == text_order(lowercase(a@), lowercase(b@)),
{
    let x = to_lowercase(a);
    let y = to_lowercase(b);
    text_cmp(x.as_str(), y.as_str())
}

/// Return the [Ordering] when comparing `a` to `b` ignoring accents: the
/// order of their forms with combining marks removed.
pub fn cmp_ai(a: &str, b: &str) -> (r: Ordering)
    ensures
        r == text_order(unaccented(a@), unaccented(b@)),
{
    let x = unaccent(a);
    let y = unaccent(b);
    text_cmp(x.as_str(), y.as_str())
}

/// Return the [Ordering] when comparing `a` to `b` ignoring both accents
/// and case: the order of their lower-case forms with combining marks
/// removed.
pub fn cmp_aci(a: &str, b: &str) -> (r: Ordering)
    ensures
        r == text_order(unaccented(lowercase(a@)), unaccented(lowercase(b@))),
{
    let x = to_lowercase(a);
    let y = to_lowercase(b);
    let u = unaccent(x.as_str());
    let v = unaccent(y.as_str());
    text_cmp(u.as_str(), v.as_str())
}

/// Each collation is a consistent comparison: a string is equal to itself,
/// swapping the arguments reverses the order, and two strings are equal
/// exactly when their compared forms are the same.
pub proof fn lemma_collations_consistent(a: Seq<char>, b: Seq<char>)
    ensures
        text_order(lowercase(a), lowercase(a)) == Ordering::Equal,
        text_order(lowercase(a), lowercase(b)) == Ordering::Less <==> text_order(
            lowercase(b),
            lowercase(a),
        ) == Ordering::Greater,
        text_order(lowercase(a), lowercase(b)) == Ordering::Equal <==> lowercase(a) == lowercase(
            b,
        ),
        text_order(unaccented(a), unaccented(b)) == Ordering::Less <==> text_order(
            unaccented(b),
            unaccented(a),
        ) == Ordering::Greater,
        text_order(unaccented(a), unaccented(b)) == Ordering::Equal <==> unaccented(a)
            == unaccented(b),
        text_order(unaccented(lowercase(a)), unaccented(lowercase(b))) == Ordering::Equal
            <==> unaccented(lowercase(a)) == unaccented(lowercase(b)),
{
    lemma_text_order(lowercase(a), lowercase(a));
    lemma_text_order(lowercase(a), lowercase(b));
    lemma_text_order(unaccented(a), unaccented(b));
    lemma_text_order(unaccented(lowercase(a)), unaccented(lowercase(b)));
}

} // verus!
