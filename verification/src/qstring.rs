//! CQL2 friendly string type that caters for a literal character sequence to
//! be used as-is or in a case- and/or accent-insensitive way, and the LIKE
//! pattern matching of such strings.

use crate::unicode::{
    chars_of, fold_case, folded, string_of, unaccent, unaccented, unicase_eq,
};
use vstd::prelude::*;

verus! {

/// Flag bit: ignore case.
pub const IGNORE_CASE: u8 = 1;

/// Flag bit: ignore accents.
pub const IGNORE_ACCENT: u8 = 2;

/// String based type used by queryables to represent a plain string, and a
/// set of flags to indicate how to use it in case and/or accent insensitive
/// contexts.
#[derive(Debug)]
pub struct QString {
    /// String literal.
    inner: String,
    /// How to use in case and accent sensitive contexts: bit 0 is "ignore
    /// case", bit 1 is "ignore accents".
    flags: u8,
}

/// The key by which strings are compared once case and/or accents are to be
/// ignored: accents are stripped first, then the case is folded.
pub open spec fn fold_for(s: Seq<char>, icase: bool, iaccent: bool) -> Seq<char> {
    if icase && iaccent {
        folded(unaccented(s))
    } else if icase {
        folded(s)
    } else if iaccent {
        unaccented(s)
    } else {
        s
    }
}

/// The text that a flag byte is rendered as.
pub open spec fn flags_text(f: u8) -> Seq<char> {
    if f == 0 {
        seq!['/', '_']
    } else if f == 1 {
        seq!['/', 'c']
    } else if f == 2 {
        seq!['/', 'a']
    } else {
        seq!['/', 'b']
    }
}


/// Every character of `p` is the `%` wildcard.
pub open spec fn all_wildcards(p: Seq<char>) -> bool {
    forall|k: int| 0 <= k < p.len() ==> p[k] == '%'
}

/// Whether `input` matches the LIKE `pattern`, character by character:
/// `%` matches any (possibly empty) run of characters, `_` exactly one
/// character, a backslash followed by another character (an escape pair)
/// consumes exactly one input character, and any other character matches
/// itself. An empty input matches only patterns made of `%` alone.
pub open spec fn like_match(input: Seq<char>, pattern: Seq<char>) -> bool
    decreases input.len() + pattern.len(),
{
    if pattern.len() == 0 {
        input.len() == 0
    } else if input.len() == 0 {
        all_wildcards(pattern)
    } else if pattern[0] == '\\' && pattern.len() > 1 {
        like_match(input.skip(1), pattern.skip(2))
    } else if pattern[0] == '%' {
        like_match(input.skip(1), pattern) || like_match(input, pattern.skip(1))
    } else if pattern[0] == '_' {
        like_match(input.skip(1), pattern.skip(1))
    } else {
        input[0] == pattern[0] && like_match(input.skip(1), pattern.skip(1))
    }
}

/// A pattern with every run of consecutive unescaped `%` wildcards replaced
/// by a single one; escape pairs (a backslash and the character after it)
/// are copied as they are. `saw` tells whether the character just before
/// `p` was an unescaped `%`.
pub open spec fn reduced(p: Seq<char>, saw: bool) -> Seq<char>
    decreases p.len(),
{
    if p.len() == 0 {
        Seq::empty()
    } else if p[0] == '\\' {
        if p.len() >= 2 {
            seq!['\\', p[1]] + reduced(p.skip(2), false)
        } else {
            seq!['\\']
        }
    } else if p[0] == '%' {
        if saw {
            reduced(p.skip(1), true)
        } else {
            seq!['%'] + reduced(p.skip(1), true)
        }
    } else {
        seq![p[0]] + reduced(p.skip(1), false)
    }
}

/// The meaning of LIKE on two strings: the case of both is folded when
/// either ignores case, the accents of both are stripped when either
/// ignores accents, and the folded input is matched against the folded
/// pattern once its runs of wildcards are reduced.
pub open spec fn like_spec(input: QString, pattern: QString) -> bool {
    let ic = input.icase_spec() || pattern.icase_spec();
    let ia = input.iaccent_spec() || pattern.iaccent_spec();
    like_match(fold_for(input.text(), ic, ia), reduced(fold_for(pattern.text(), ic, ia), false))
}

/// `like_match` on the suffixes of two character vectors from the given
/// positions on, computed the way the definition reads.
fn like_from(input: &Vec<char>, a: usize, pattern: &Vec<char>, b: usize) -> (r: bool)
    requires
        a <= input.len(),
        b <= pattern.len(),
    ensures
        r == like_match(input@.skip(a as int), pattern@.skip(b as int)),
    decreases (input.len() - a) + (pattern.len() - b),
{
    let ghost i = input@.skip(a as int);
    let ghost p = pattern@.skip(b as int);
    if b == pattern.len() {
        return a == input.len();
    }
    if a == input.len() {
        let mut k = b;
        while k < pattern.len()
            invariant
                b <= k <= pattern.len(),
                b < pattern.len(),
                a == input.len(),
                i == input@.skip(a as int),
                p == pattern@.skip(b as int),
                forall|j: int| 0 <= j < k - b ==> p[j] == '%',
            decreases pattern.len() - k,
        {
            if pattern[k] != '%' {
                assert(p[k - b] != '%');
                assert(i.len() == 0);
                return false;
            }
            k = k + 1;
        }
        return true;
    }
    proof {
        assert(i.skip(1) == input@.skip(a + 1));
        assert(p.skip(1) == pattern@.skip(b + 1));
        assert(i[0] == input@[a as int]);
        assert(p[0] == pattern@[b as int]);
    }
    if pattern[b] == '\\' && pattern.len() - b > 1 {
        proof {
            assert(p.skip(2) == pattern@.skip(b + 2));
        }
        let escaped = pattern[b + 1];
        return like_from(input, a + 1, pattern, b + 2)
            || (input[a] == escaped && like_from(input, a + 1, pattern, b + 2));
    }
    if pattern[b] == '%' {
        return like_from(input, a + 1, pattern, b) || like_from(input, a, pattern, b + 1);
    }
    if pattern[b] == '_' {
        return like_from(input, a + 1, pattern, b + 1);
    }
    input[a] == pattern[b] && like_from(input, a + 1, pattern, b + 1)
}

/// Reduce multiple consecutive occurrences of unescaped wildcards to just
/// one.
pub fn reduce_wildcards(pattern: &str) -> (r: Vec<char>)
    ensures
        r@ == reduced(pattern@, false),
{
    let chars = chars_of(pattern);
    let mut result: Vec<char> = Vec::new();
    let mut saw_uwc = false;
    let mut i: usize = 0;
    assert(chars@.skip(0) == chars@);
    while i < chars.len()
        invariant
            i <= chars.len(),
            chars@ == pattern@,
            result@ + reduced(chars@.skip(i as int), saw_uwc) == reduced(chars@, false),
        decreases chars.len() - i,
    {
        let ghost rest = chars@.skip(i as int);
        let ghost before = result@;
        let c = chars[i];
        assert(rest[0] == c);
        if c == '\\' {
            result.push('\\');
            if i + 1 < chars.len() {
                let n = chars[i + 1];
                result.push(n);
                assert(rest.skip(2) == chars@.skip(i + 2));
                assert(rest[1] == n);
                assert(result@ == before + seq!['\\', n]);
                i = i + 2;
            } else {
                assert(rest.len() == 1);
                assert(chars@.skip(i + 1).len() == 0);
                assert(result@ == before + seq!['\\']);
                i = i + 1;
            }
            saw_uwc = false;
        } else if c == '%' {
            assert(rest.skip(1) == chars@.skip(i + 1));
            if !saw_uwc {
                result.push('%');
                assert(result@ == before + seq!['%']);
            }
            saw_uwc = true;
            i = i + 1;
        } else {
            assert(rest.skip(1) == chars@.skip(i + 1));
            result.push(c);
            assert(result@ == before + seq![c]);
            saw_uwc = false;
            i = i + 1;
        }
    }
    assert(chars@.skip(i as int).len() == 0);
    result
}


/// An empty input matches a pattern exactly when the pattern is made of
/// wildcards alone.
proof fn lemma_empty_input(q: Seq<char>)
    ensures
        like_match(Seq::empty(), q) == all_wildcards(q),
{
}

/// A pattern made of two parts is all wildcards exactly when both parts are.
proof fn lemma_all_wildcards_concat(a: Seq<char>, b: Seq<char>)
    ensures
        all_wildcards(a + b) == (all_wildcards(a) && all_wildcards(b)),
{
    if all_wildcards(a + b) {
        assert forall|k: int| 0 <= k < b.len() implies b[k] == '%' by {
            assert((a + b)[a.len() + k] == b[k]);
        }
        assert forall|k: int| 0 <= k < a.len() implies a[k] == '%' by {
            assert((a + b)[k] == a[k]);
        }
    }
}

/// One token (`%`, an escape pair, or a single character that is neither
/// `%` nor a backslash) put in front of two patterns that match the same
/// inputs gives two patterns that match the same inputs.
proof fn lemma_token_congruence(i: Seq<char>, t: Seq<char>, q1: Seq<char>, q2: Seq<char>)
    requires
        forall|j: Seq<char>| like_match(j, q1) == #[trigger] like_match(j, q2),
        (t.len() == 1 && t[0] != '\\') || (t.len() == 2 && t[0] == '\\'),
    ensures
        like_match(i, t + q1) == like_match(i, t + q2),
    decreases i.len(),
{
    let p1 = t + q1;
    let p2 = t + q2;
    assert(p1[0] == t[0] && p2[0] == t[0]);
    lemma_empty_input(q1);
    lemma_empty_input(q2);
    assert(like_match(Seq::empty(), q1) == like_match(Seq::empty(), q2));
    lemma_all_wildcards_concat(t, q1);
    lemma_all_wildcards_concat(t, q2);
    if t.len() == 2 {
        assert(p1.skip(2) == q1);
        assert(p2.skip(2) == q2);
        if i.len() > 0 {
            assert(like_match(i.skip(1), q1) == like_match(i.skip(1), q2));
        }
    } else {
        assert(p1.skip(1) == q1);
        assert(p2.skip(1) == q2);
        if i.len() > 0 {
            assert(like_match(i.skip(1), q1) == like_match(i.skip(1), q2));
            if t[0] == '%' {
                lemma_token_congruence(i.skip(1), t, q1, q2);
                assert(like_match(i, q1) == like_match(i, q2));
            }
        }
    }
}

/// Two consecutive wildcards match the same inputs as a single one.
proof fn lemma_double_wildcard(i: Seq<char>, q: Seq<char>)
    ensures
        like_match(i, seq!['%', '%'] + q) == like_match(i, seq!['%'] + q),
    decreases i.len(),
{
    let pp = seq!['%', '%'] + q;
    let p = seq!['%'] + q;
    assert(pp.skip(1) == p);
    assert(p.skip(1) == q);
    assert(pp[0] == '%' && p[0] == '%');
    lemma_all_wildcards_concat(seq!['%', '%'], q);
    lemma_all_wildcards_concat(seq!['%'], q);
    assert(all_wildcards(seq!['%', '%']));
    assert(all_wildcards(seq!['%']));
    if i.len() > 0 {
        lemma_double_wildcard(i.skip(1), q);
    }
}

/// Reducing runs of wildcards never changes which inputs a pattern matches;
/// after an emitted wildcard, the rest of the reduction keeps the meaning of
/// the rest of the pattern too.
proof fn lemma_reduced(p: Seq<char>)
    ensures
        forall|i: Seq<char>| #[trigger] like_match(i, reduced(p, false)) == like_match(i, p),
        forall|i: Seq<char>|
            #[trigger] like_match(i, seq!['%'] + reduced(p, true)) == like_match(i, seq!['%'] + p),
    decreases p.len(),
{
    if p.len() == 0 {
        assert(seq!['%'] + p == seq!['%']);
        assert(seq!['%'] + reduced(p, true) == seq!['%']);
    } else if p[0] == '\\' {
        if p.len() >= 2 {
            let rest = p.skip(2);
            let t = seq!['\\', p[1]];
            lemma_reduced(rest);
            assert(p == t + rest);
            assert(reduced(p, false) == t + reduced(rest, false));
            assert(reduced(p, true) == t + reduced(rest, false));
            assert forall|i: Seq<char>| #[trigger]
                like_match(i, reduced(p, false)) == like_match(i, p) by {
                lemma_token_congruence(i, t, reduced(rest, false), rest);
            }
            assert forall|j: Seq<char>| #[trigger]
                like_match(j, t + reduced(rest, false)) == like_match(j, t + rest) by {
                lemma_token_congruence(j, t, reduced(rest, false), rest);
            }
            assert forall|i: Seq<char>| #[trigger]
                like_match(i, seq!['%'] + reduced(p, true)) == like_match(i, seq!['%'] + p) by {
                lemma_token_congruence(i, seq!['%'], t + reduced(rest, false), t + rest);
                assert(seq!['%'] + reduced(p, true) == seq!['%'] + (t + reduced(rest, false)));
                assert(seq!['%'] + p == seq!['%'] + (t + rest));
            }
        } else {
            assert(reduced(p, false) == p);
            assert(reduced(p, true) == p);
        }
    } else if p[0] == '%' {
        let rest = p.skip(1);
        lemma_reduced(rest);
        assert(p == seq!['%'] + rest);
        assert(reduced(p, false) == seq!['%'] + reduced(rest, true));
        assert(reduced(p, true) == reduced(rest, true));
        assert forall|i: Seq<char>| #[trigger]
            like_match(i, seq!['%'] + reduced(p, true)) == like_match(i, seq!['%'] + p) by {
            lemma_double_wildcard(i, rest);
            assert(seq!['%'] + p == seq!['%', '%'] + rest);
        }
    } else {
        let rest = p.skip(1);
        let t = seq![p[0]];
        lemma_reduced(rest);
        assert(p == t + rest);
        assert(reduced(p, false) == t + reduced(rest, false));
        assert(reduced(p, true) == t + reduced(rest, false));
        assert forall|i: Seq<char>| #[trigger]
            like_match(i, reduced(p, false)) == like_match(i, p) by {
            lemma_token_congruence(i, t, reduced(rest, false), rest);
        }
        assert forall|j: Seq<char>| #[trigger]
            like_match(j, t + reduced(rest, false)) == like_match(j, t + rest) by {
            lemma_token_congruence(j, t, reduced(rest, false), rest);
        }
        assert forall|i: Seq<char>| #[trigger]
            like_match(i, seq!['%'] + reduced(p, true)) == like_match(i, seq!['%'] + p) by {
            lemma_token_congruence(i, seq!['%'], t + reduced(rest, false), t + rest);
            assert(seq!['%'] + reduced(p, true) == seq!['%'] + (t + reduced(rest, false)));
            assert(seq!['%'] + p == seq!['%'] + (t + rest));
        }
    }
}

/// Reducing runs of unescaped wildcards to one wildcard leaves the set of
/// inputs that a LIKE pattern matches unchanged.
pub proof fn lemma_reduce_wildcards_keeps_matches(input: Seq<char>, pattern: Seq<char>)
    ensures
        like_match(input, reduced(pattern, false)) == like_match(input, pattern),
{
    lemma_reduced(pattern);
}


/// String equality does not depend on the order of its operands.
pub proof fn lemma_equals_symmetric(a: QString, b: QString)
    ensures
        a.equals(b) == b.equals(a),
{
}

/// Every string equals itself, whatever its flags.
pub proof fn lemma_equals_reflexive(a: QString)
    ensures
        a.equals(a),
{
}

/// The pattern made of a single wildcard matches every input.
pub proof fn lemma_wildcard_matches_all(input: Seq<char>)
    ensures
        like_match(input, seq!['%']),
    decreases input.len(),
{
    assert(all_wildcards(seq!['%']));
    if input.len() > 0 {
        lemma_wildcard_matches_all(input.skip(1));
    }
}

/// A pattern holding none of the characters `%`, `_` and backslash matches
/// exactly itself.
pub proof fn lemma_literal_matches_itself(s: Seq<char>)
    requires
        forall|k: int| 0 <= k < s.len() ==> s[k] != '%' && s[k] != '_' && s[k] != '\\',
    ensures
        like_match(s, s),
    decreases s.len(),
{
    if s.len() > 0 {
        assert forall|k: int| 0 <= k < s.skip(1).len() implies s.skip(1)[k] != '%'
            && s.skip(1)[k] != '_' && s.skip(1)[k] != '\\' by {
            assert(s.skip(1)[k] == s[k + 1]);
        }
        lemma_literal_matches_itself(s.skip(1));
    }
}

/// The characters of `s` folded for comparison in the given mode.
fn fold_chars(s: &str, icase: bool, iaccent: bool) -> (r: String)
    ensures
        r@ == fold_for(s@, icase, iaccent),
{
    if icase && iaccent {
        let u = unaccent(s);
        fold_case(u.as_str())
    } else if icase {
        fold_case(s)
    } else if iaccent {
        unaccent(s)
    } else {
        s.to_owned()
    }
}

/// Lexicographic order of character sequences by code point, which is the
/// order of `str` comparisons (UTF-8 keeps the order of code points).
pub open spec fn seq_lt(a: Seq<char>, b: Seq<char>) -> bool
    decreases a.len(),
{
    if a.len() == 0 {
        b.len() > 0
    } else if b.len() == 0 {
        false
    } else if a[0] == b[0] {
        seq_lt(a.skip(1), b.skip(1))
    } else {
        a[0] < b[0]
    }
}

/// Whether `a` comes strictly before `b` in the lexicographic order of their
/// characters.
pub fn text_lt(a: &str, b: &str) -> (r: bool)
    ensures
        r == seq_lt(a@, b@),
{
    let x = chars_of(a);
    let y = chars_of(b);
    let mut i: usize = 0;
    assert(x@.skip(0) == x@ && y@.skip(0) == y@);
    while i < x.len() && i < y.len() && x[i] == y[i]
        invariant
            i <= x.len(),
            i <= y.len(),
            x@ == a@,
            y@ == b@,
            seq_lt(x@.skip(i as int), y@.skip(i as int)) == seq_lt(a@, b@),
        decreases x.len() - i,
    {
        assert(x@.skip(i as int).skip(1) == x@.skip(i + 1));
        assert(y@.skip(i as int).skip(1) == y@.skip(i + 1));
        i = i + 1;
    }
    if i == x.len() {
        i < y.len()
    } else if i == y.len() {
        false
    } else {
        x[i] < y[i]
    }
}

impl QString {
    #[verifier::type_invariant]
    spec fn flags_ok(self) -> bool {
        self.flags < 4
    }

    /// The raw characters of this string.
    pub closed spec fn text(self) -> Seq<char> {
        self.inner@
    }

    /// The flag bits of this string (always below 4).
    pub closed spec fn flag_bits(self) -> u8 {
        self.flags
    }

    /// Whether this string is to be compared ignoring case.
    pub open spec fn icase_spec(self) -> bool {
        self.flag_bits() % 2 == 1
    }

    /// Whether this string is to be compared ignoring accents.
    pub open spec fn iaccent_spec(self) -> bool {
        self.flag_bits() >= 2
    }

    /// Constructor for a plain instance.
    pub fn plain(s: &str) -> (r: Self)
        ensures
            r.text() == s@,
            r.flag_bits() == 0,
    {
        QString { inner: s.to_owned(), flags: 0 }
    }

    /// This string, to be compared ignoring case as well.
    pub closed spec fn with_icase(self) -> QString {
        QString { inner: self.inner, flags: self.flags | IGNORE_CASE }
    }

    /// This string, to be compared ignoring accents as well.
    pub closed spec fn with_iaccent(self) -> QString {
        QString { inner: self.inner, flags: self.flags | IGNORE_ACCENT }
    }

    /// Marking a string twice as ignoring case, or accents, is marking it
    /// once.
    pub proof fn lemma_marks_idempotent(self)
        ensures
            self.with_icase().with_icase() == self.with_icase(),
            self.with_iaccent().with_iaccent() == self.with_iaccent(),
    {
        let f = self.flags;
        assert((f | 1u8) | 1u8 == f | 1u8) by (bit_vector);
        assert((f | 2u8) | 2u8 == f | 2u8) by (bit_vector);
    }

    /// Create a new instance from `self` w/ the added ICASE (ignore case)
    /// flag set.
    pub fn and_icase(&self) -> (r: Self)
        ensures
            r == self.with_icase(),
            r.text() == self.text(),
            r.flag_bits() == (self.flag_bits() | IGNORE_CASE),
            r.icase_spec(),
            r.iaccent_spec() == self.iaccent_spec(),
    {
        proof {
            use_type_invariant(self);
        }
        let f = self.flags;
        let g = f | 1;
        assert(f < 4 ==> (f | 1u8) < 4 && (f | 1u8) % 2 == 1 && ((f | 1u8) >= 2 <==> f >= 2))
            by (bit_vector);
        QString { inner: self.inner.clone(), flags: g }
    }

    /// Create a new instance from `self` w/ the added IACCENT (ignore
    /// accent) flag set.
    pub fn and_iaccent(&self) -> (r: Self)
        ensures
            r == self.with_iaccent(),
            r.text() == self.text(),
            r.flag_bits() == (self.flag_bits() | IGNORE_ACCENT),
            r.iaccent_spec(),
            r.icase_spec() == self.icase_spec(),
    {
        proof {
            use_type_invariant(self);
        }
        let f = self.flags;
        let g = f | 2;
        assert(f < 4 ==> (f | 2u8) < 4 && (f | 2u8) >= 2 && ((f | 2u8) % 2 == f % 2))
            by (bit_vector);
        QString { inner: self.inner.clone(), flags: g }
    }

    /// Return the inner raw string.
    pub fn as_str(&self) -> (r: &str)
        ensures
            r@ == self.text(),
    {
        self.inner.as_str()
    }

    /// Return the flags as a byte.
    pub fn flags(&self) -> (r: u8)
        ensures
            r == self.flag_bits(),
            r < 4,
    {
        proof {
            use_type_invariant(self);
        }
        self.flags
    }

    /// Return a reference to the inner string.
    pub fn inner(&self) -> (r: &str)
        ensures
            r@ == self.text(),
    {
        self.inner.as_str()
    }

    /// Return TRUE if this is a plain string; FALSE otherwise.
    pub fn is_plain(&self) -> (r: bool)
        ensures
            r == (self.flag_bits() == 0),
    {
        self.flags == 0
    }

    /// Return TRUE if this is a case-insensitive string; FALSE otherwise.
    pub fn is_icase(&self) -> (r: bool)
        ensures
            r == self.icase_spec(),
    {
        self.flags % 2 == 1
    }

    /// Return TRUE if this is an accent-insensitive string; FALSE otherwise.
    pub fn is_iaccent(&self) -> (r: bool)
        ensures
            r == self.iaccent_spec(),
    {
        self.flags >= 2
    }

    /// Constructor for an accent-insensitive instance.
    pub fn iaccent(s: &str) -> (r: Self)
        ensures
            r.text() == s@,
            r.flag_bits() == IGNORE_ACCENT,
    {
        QString { inner: s.to_owned(), flags: 2 }
    }

    /// Constructor for a case-insensitive instance.
    pub fn icase(s: &str) -> (r: Self)
        ensures
            r.text() == s@,
            r.flag_bits() == IGNORE_CASE,
    {
        QString { inner: s.to_owned(), flags: 1 }
    }

    /// Return a new string from the given argument w/ all Unicode combining
    /// marks removed.
    pub fn unaccent(s: &str) -> (r: String)
        ensures
            r@ == unaccented(s@),
    {
        unaccent(s)
    }

    /// A copy of this string.
    pub fn clone(&self) -> (r: Self)
        ensures
            r == *self,
            r.text() == self.text(),
            r.flag_bits() == self.flag_bits(),
    {
        proof {
            use_type_invariant(self);
        }
        QString { inner: self.inner.clone(), flags: self.flags }
    }

    /// The text rendering of this string: a slash, the raw string, then a
    /// slash and a letter telling the flags (`_` plain, `c` ignore case,
    /// `a` ignore accents, `b` both).
    pub fn to_string(&self) -> (r: String)
        ensures
            r@ == seq!['/'] + self.text() + flags_text(self.flag_bits()),
    {
        let mut r = String::new();
        r.append("/");
        r.append(self.inner.as_str());
        let tag = if self.flags == 0 {
            "/_"
        } else if self.flags == 1 {
            "/c"
        } else if self.flags == 2 {
            "/a"
        } else {
            "/b"
        };
        proof {
            reveal_strlit("/");
            reveal_strlit("/_");
            reveal_strlit("/c");
            reveal_strlit("/a");
            reveal_strlit("/b");
        }
        r.append(tag);
        r
    }

    /// The meaning of `==` on two strings: when either ignores case, both
    /// are compared by their case folding; when either ignores accents, both
    /// are compared with accents stripped.
    pub open spec fn equals(self, other: QString) -> bool {
        let ic = self.icase_spec() || other.icase_spec();
        let ia = self.iaccent_spec() || other.iaccent_spec();
        fold_for(self.text(), ic, ia) == fold_for(other.text(), ic, ia)
    }

    /// The order of strings: by their raw characters first, then by their
    /// flags.
    pub open spec fn precedes(self, other: QString) -> bool {
        seq_lt(self.text(), other.text()) || (self.text() == other.text()
            && self.flag_bits() < other.flag_bits())
    }

    /// Whether this string comes strictly before `other` in the order of
    /// strings.
    pub fn lt(&self, other: &QString) -> (r: bool)
        ensures
            r == self.precedes(*other),
    {
        text_lt(self.inner.as_str(), other.inner.as_str()) || (self.inner == other.inner
            && self.flags < other.flags)
    }

    /// Whether this string and `other` hold the same characters and flags.
    pub fn identical(&self, other: &QString) -> (r: bool)
        ensures
            r == (self.text() == other.text() && self.flag_bits() == other.flag_bits()),
    {
        self.inner == other.inner && self.flags == other.flags
    }

    /// Whether `input` matches the LIKE `pattern`.
    pub fn like(input: &QString, pattern: &QString) -> (r: bool)
        ensures
            r == like_spec(*input, *pattern),
            r == ({
                let ic = input.icase_spec() || pattern.icase_spec();
                let ia = input.iaccent_spec() || pattern.iaccent_spec();
                like_match(fold_for(input.text(), ic, ia), fold_for(pattern.text(), ic, ia))
            }),
    {
        let icase = input.is_icase() || pattern.is_icase();
        let iaccent = input.is_iaccent() || pattern.is_iaccent();
        let folded_input = fold_chars(input.inner.as_str(), icase, iaccent);
        let folded_pattern = fold_chars(pattern.inner.as_str(), icase, iaccent);
        let input_chars = chars_of(folded_input.as_str());
        let reduced_pattern = reduce_wildcards(folded_pattern.as_str());
        proof {
            lemma_reduced(folded_pattern@);
            assert(input_chars@.skip(0) == input_chars@);
            assert(reduced_pattern@.skip(0) == reduced_pattern@);
        }
        like_from(&input_chars, 0, &reduced_pattern, 0)
    }
}


/// Equality of two strings, honouring the case and accent flags of both
/// (see [QString::equals]).
impl PartialEq for QString {
    /// Equality of two strings, honouring the case and accent flags of both.
    fn eq(&self, other: &QString) -> (r: bool) {
        let to_icase = self.is_icase() || other.is_icase();
        let to_iaccent = self.is_iaccent() || other.is_iaccent();
        if to_icase && to_iaccent {
            let a = unaccent(self.inner.as_str());
            let b = unaccent(other.inner.as_str());
            unicase_eq(a.as_str(), b.as_str())
        } else if to_icase {
            unicase_eq(self.inner.as_str(), other.inner.as_str())
        } else if to_iaccent {
            let a = unaccent(self.inner.as_str());
            let b = unaccent(other.inner.as_str());
            a == b
        } else {
            self.inner == other.inner
        }
    }
}

impl vstd::std_specs::cmp::PartialEqSpecImpl for QString {
    open spec fn obeys_eq_spec() -> bool {
        true
    }

    open spec fn eq_spec(&self, other: &QString) -> bool {
        self.equals(*other)
    }
}

} // verus!
