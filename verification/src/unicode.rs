//! Unicode services this library relies on: case folding (`unicase`),
//! canonical (de)composition (`unicode-normalization`) and lower-casing
//! (std). Each outside computation is reached through one small trusted
//! function; everything built on top of them is verified.

use unicase::UniCase;
use unicode_normalization::char::is_combining_mark;
use unicode_normalization::UnicodeNormalization;
use vstd::prelude::*;

verus! {

/// The characters that Unicode simple+full case folding, as tabulated by
/// `unicase`, maps one character to.
pub uninterp spec fn case_fold(c: char) -> Seq<char>;

/// Unicode Normalization Form D of a character sequence.
pub uninterp spec fn nfd(s: Seq<char>) -> Seq<char>;

/// Unicode Normalization Form C of a character sequence.
pub uninterp spec fn nfc(s: Seq<char>) -> Seq<char>;

/// Whether a character belongs to the Unicode general category `M`
/// (combining marks).
pub uninterp spec fn combining_mark(c: char) -> bool;

/// The Unicode lower-case mapping of a whole string, as `str::to_lowercase`
/// computes it.
pub uninterp spec fn lowercase(s: Seq<char>) -> Seq<char>;

/// Whether a character has the Unicode `White_Space` property (the 25
/// characters `char::is_whitespace` and `str::trim` go by).
pub open spec fn white_space(c: char) -> bool {
    let n = c as u32;
    (0x9 <= n <= 0xd) || n == 0x20 || n == 0x85 || n == 0xa0 || n == 0x1680 || (0x2000 <= n
        <= 0x200a) || n == 0x2028 || n == 0x2029 || n == 0x202f || n == 0x205f || n == 0x3000
}

/// A sequence without its leading white space.
pub open spec fn trim_start(s: Seq<char>) -> Seq<char>
    decreases s.len(),
{
    if s.len() > 0 && white_space(s[0]) {
        trim_start(s.subrange(1, s.len() as int))
    } else {
        s
    }
}

/// A sequence without its trailing white space.
pub open spec fn trim_end(s: Seq<char>) -> Seq<char>
    decreases s.len(),
{
    if s.len() > 0 && white_space(s.last()) {
        trim_end(s.subrange(0, s.len() - 1))
    } else {
        s
    }
}

/// A string with its leading and trailing white space removed, as
/// `str::trim` computes it.
pub open spec fn trimmed(s: Seq<char>) -> Seq<char> {
    trim_end(trim_start(s))
}

/// Case folding of a whole sequence: each character replaced by its folding.
pub open spec fn folded(s: Seq<char>) -> Seq<char>
    decreases s.len(),
{
    if s.len() == 0 {
        Seq::empty()
    } else {
        folded(s.drop_last()) + case_fold(s.last())
    }
}

/// A sequence with all combining marks removed.
pub open spec fn without_marks(s: Seq<char>) -> Seq<char> {
    s.filter(|c: char| !combining_mark(c))
}

/// The accent-stripped form of a string: decomposed, combining marks
/// removed, then recomposed. The empty string stays empty.
pub open spec fn unaccented(s: Seq<char>) -> Seq<char> {
    if s.len() == 0 {
        Seq::empty()
    } else {
        nfc(without_marks(nfd(s)))
    }
}

/// `UniCase::new(a) == UniCase::new(b)` from `unicase`: true exactly when
/// the case foldings of both strings are the same character sequence
/// (ASCII-only strings are compared ignoring ASCII case, which is the same
/// thing since `unicase` folds ASCII letters to their lower case).
#[verifier::external_body]
pub fn unicase_eq(a: &str, b: &str) -> (r: bool)
    ensures
        r == (folded(a@) == folded(b@)),
{
    UniCase::new(a) == UniCase::new(b)
}

/// `UniCase::unicode(s).to_folded_case()` from `unicase`: the full case
/// folding of `s`, character by character.
#[verifier::external_body]
pub fn fold_case(s: &str) -> (r: String)
    ensures
        r@ == folded(s@),
        s@.len() == 1 ==> r@ == case_fold(s@[0]),
{
    UniCase::unicode(s).to_folded_case()
}

/// `s.nfd()` from `unicode-normalization`, collected: the canonical
/// decomposition of `s`.
#[verifier::external_body]
fn decompose(s: &str) -> (r: Vec<char>)
    ensures
        r@ == nfd(s@),
{
    s.nfd().collect()
}

/// `unicode_normalization::char::is_combining_mark`.
#[verifier::external_body]
fn is_mark(c: char) -> (r: bool)
    ensures
        r == combining_mark(c),
{
    is_combining_mark(c)
}

/// `.nfc()` from `unicode-normalization` over a character sequence,
/// collected into a string: its canonical composition.
#[verifier::external_body]
fn compose(v: &Vec<char>) -> (r: String)
    ensures
        r@ == nfc(v@),
{
    v.iter().copied().nfc().collect()
}

/// `str::to_lowercase` from std.
#[verifier::external_body]
pub fn to_lowercase(s: &str) -> (r: String)
    ensures
        r@ == lowercase(s@),
{
    s.to_lowercase()
}

fn is_white_space(c: char) -> (r: bool)
    ensures
        r == white_space(c),
{
    let n = c as u32;
    (0x9 <= n && n <= 0xd) || n == 0x20 || n == 0x85 || n == 0xa0 || n == 0x1680 || (0x2000 <= n
        && n <= 0x200a) || n == 0x2028 || n == 0x2029 || n == 0x202f || n == 0x205f || n == 0x3000
}

proof fn lemma_trim_start_from(s: Seq<char>, i: int)
    requires
        0 <= i <= s.len(),
        forall|k: int| 0 <= k < i ==> white_space(#[trigger] s[k]),
    ensures
        trim_start(s) == trim_start(s.subrange(i, s.len() as int)),
    decreases i,
{
    if i == 0 {
        assert(s.subrange(0, s.len() as int) == s);
    } else {
        assert(white_space(s[0]));
        let t = s.subrange(1, s.len() as int);
        assert forall|k: int| 0 <= k < i - 1 implies white_space(#[trigger] t[k]) by {
            assert(t[k] == s[k + 1]);
        }
        lemma_trim_start_from(t, i - 1);
        assert(t.subrange(i - 1, t.len() as int) == s.subrange(i, s.len() as int));
    }
}

proof fn lemma_trim_end_to(s: Seq<char>, j: int)
    requires
        0 <= j <= s.len(),
        forall|k: int| j <= k < s.len() ==> white_space(#[trigger] s[k]),
    ensures
        trim_end(s) == trim_end(s.subrange(0, j)),
    decreases s.len() - j,
{
    if j == s.len() {
        assert(s.subrange(0, j) == s);
    } else {
        assert(white_space(s[s.len() - 1]));
        let t = s.subrange(0, s.len() - 1);
        assert forall|k: int| j <= k < t.len() implies white_space(#[trigger] t[k]) by {
            assert(t[k] == s[k]);
        }
        lemma_trim_end_to(t, j);
        assert(t.subrange(0, j) == s.subrange(0, j));
    }
}

/// `str::trim`: the string without its leading and trailing white space.
pub fn trim(s: &str) -> (r: String)
    ensures
        r@ == trimmed(s@),
{
    let v = chars_of(s);
    let mut i: usize = 0;
    while i < v.len() && is_white_space(v[i])
        invariant
            i <= v.len(),
            forall|k: int| 0 <= k < i ==> white_space(#[trigger] v@[k]),
        decreases v.len() - i,
    {
        i = i + 1;
    }
    let mut j: usize = v.len();
    while j > i && is_white_space(v[j - 1])
        invariant
            i <= j <= v.len(),
            forall|k: int| j <= k < v.len() ==> white_space(#[trigger] v@[k]),
        decreases j,
    {
        j = j - 1;
    }
    let mut w: Vec<char> = Vec::new();
    let mut k: usize = i;
    while k < j
        invariant
            i <= k <= j,
            j <= v.len(),
            w@ == v@.subrange(i as int, k as int),
        decreases j - k,
    {
        w.push(v[k]);
        k = k + 1;
    }
    proof {
        let mid = v@.subrange(i as int, v.len() as int);
        lemma_trim_start_from(v@, i as int);
        assert(i == v.len() || !white_space(v@[i as int]));
        assert(trim_start(mid) == mid);
        assert forall|m: int| j - i <= m < mid.len() implies white_space(#[trigger] mid[m]) by {
            assert(mid[m] == v@[i + m]);
        }
        lemma_trim_end_to(mid, j - i);
        let core = mid.subrange(0, j - i);
        assert(core =~= v@.subrange(i as int, j as int));
        assert(j == i || !white_space(core.last()));
        assert(trim_end(core) == core);
    }
    string_of(&w)
}

/// The characters of a string, in order (`s.chars().collect()`).
#[verifier::external_body]
pub fn chars_of(s: &str) -> (r: Vec<char>)
    ensures
        r@ == s@,
{
    s.chars().collect()
}

/// A string made of the given characters, in order.
#[verifier::external_body]
pub fn string_of(v: &Vec<char>) -> (r: String)
    ensures
        r@ == v@,
{
    v.iter().collect()
}

/// Return a new string from `s` with all Unicode combining marks removed:
/// `s` is decomposed, its marks dropped, and the rest recomposed.
pub fn unaccent(s: &str) -> (r: String)
    ensures
        r@ == unaccented(s@),
{
    if s.is_empty() {
        proof {
            assert(s@.len() == 0);
        }
        return String::new();
    }
    let d = decompose(s);
    let mut kept: Vec<char> = Vec::new();
    let mut i: usize = 0;
    while i < d.len()
        invariant
            i <= d.len(),
            kept@ == d@.take(i as int).filter(|c: char| !combining_mark(c)),
        decreases d.len() - i,
    {
        let c = d[i];
        proof {
            assert(d@.take(i + 1).drop_last() == d@.take(i as int));
            reveal(Seq::filter);
        }
        if !is_mark(c) {
            kept.push(c);
        }
        i = i + 1;
    }
    proof {
        assert(d@.take(d@.len() as int) == d@);
    }
    compose(&kept)
}

} // verus!
