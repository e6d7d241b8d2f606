//! Text helpers: ASCII case folding, case-insensitive ordering, and the
//! character-level view of strings.
use vstd::prelude::*;

verus! {

/// ASCII lower-casing of one character; other characters are unchanged.
pub open spec fn lower(c: char) -> char {
    if 'A' <= c <= 'Z' {
        ((c as u32) + 32) as char
    } else {
        c
    }
}

/// ASCII lower-casing of one character (`to_ascii_lowercase`).
pub fn ascii_lower(c: char) -> (r: char)
    ensures
        r == lower(c),
{
    if 'A' <= c && c <= 'Z' {
        ((c as u8) + 32) as char
    } else {
        c
    }
}

/// Is `c` an ASCII letter (`is_ascii_alphabetic`)?
pub open spec fn is_ascii_alpha(c: char) -> bool {
    ('A' <= c <= 'Z') || ('a' <= c <= 'z')
}

/// Is `c` an ASCII letter?
pub fn ascii_alpha(c: char) -> (r: bool)
    ensures
        r == is_ascii_alpha(c),
{
    ('A' <= c && c <= 'Z') || ('a' <= c && c <= 'z')
}

/// `s` with every character lower-cased.
pub open spec fn lowered(s: Seq<char>) -> Seq<char> {
    s.map_values(|c: char| lower(c))
}

/// Strict lexicographic order by code point; a proper prefix comes first.
pub open spec fn lex_lt(a: Seq<char>, b: Seq<char>) -> bool
    decreases a.len(),
{
    if a.len() == 0 {
        b.len() > 0
    } else if b.len() == 0 {
        false
    } else if a[0] < b[0] {
        true
    } else if a[0] > b[0] {
        false
    } else {
        lex_lt(a.drop_first(), b.drop_first())
    }
}

/// Case-insensitive strict order.
pub open spec fn ci_lt(a: Seq<char>, b: Seq<char>) -> bool {
    lex_lt(lowered(a), lowered(b))
}

/// No sequence is before itself.
pub proof fn lemma_lex_irreflexive(a: Seq<char>)
    ensures
        !lex_lt(a, a),
    decreases a.len(),
{
    if a.len() > 0 {
        lemma_lex_irreflexive(a.drop_first());
    }
}

/// Exactly one of `a < b`, `b < a`, `a == b` holds.
pub proof fn lemma_lex_trichotomy(a: Seq<char>, b: Seq<char>)
    ensures
        lex_lt(a, b) || lex_lt(b, a) || a == b,
        !(lex_lt(a, b) && lex_lt(b, a)),
        a == b ==> !lex_lt(a, b),
    decreases a.len(),
{
    if a.len() == 0 {
        if b.len() == 0 {
            assert(a =~= b);
        }
    } else if b.len() == 0 {
    } else if a[0] == b[0] {
        lemma_lex_trichotomy(a.drop_first(), b.drop_first());
        if a.drop_first() == b.drop_first() {
            assert forall|k: int| 0 <= k < a.len() implies a[k] == b[k] by {
                if k > 0 {
                    assert(a[k] == a.drop_first()[k - 1]);
                    assert(b[k] == b.drop_first()[k - 1]);
                }
            }
            assert(a =~= b);
        }
    }
    if a == b {
        lemma_lex_irreflexive(a);
    }
}

/// The order is transitive.
pub proof fn lemma_lex_transitive(a: Seq<char>, b: Seq<char>, c: Seq<char>)
    requires
        lex_lt(a, b),
        lex_lt(b, c),
    ensures
        lex_lt(a, c),
    decreases a.len(),
{
    if a.len() > 0 && b.len() > 0 && c.len() > 0 {
        if a[0] == b[0] && b[0] == c[0] {
            lemma_lex_transitive(a.drop_first(), b.drop_first(), c.drop_first());
        }
    }
}

/// The characters of `s`.
pub fn chars_of(s: &str) -> (v: Vec<char>)
    ensures
        v@ == s@,
{
    let n = s.unicode_len();
    let mut v: Vec<char> = Vec::new();
    let mut i: usize = 0;
    while i < n
        invariant
            i <= n,
            n == s@.len(),
            v@ == s@.take(i as int),
        decreases n - i,
    {
        v.push(s.get_char(i));
        assert(v@ =~= s@.take(i as int + 1));
        i = i + 1;
    }
    assert(s@.take(n as int) =~= s@);
    v
}

/// Is `a` strictly before `b` in code-point order (the order `str::cmp`
/// gives, since UTF-8 preserves it)?
pub fn lex_less(a: &str, b: &str) -> (r: bool)
    ensures
        r == lex_lt(a@, b@),
{
    let na = a.unicode_len();
    let nb = b.unicode_len();
    let mut i: usize = 0;
    assert(a@.skip(0) =~= a@);
    assert(b@.skip(0) =~= b@);
    while i < na && i < nb
        invariant
            na == a@.len(),
            nb == b@.len(),
            i <= na,
            i <= nb,
            lex_lt(a@, b@) == lex_lt(a@.skip(i as int), b@.skip(i as int)),
        decreases na - i,
    {
        let ca = a.get_char(i);
        let cb = b.get_char(i);
        assert(a@.skip(i as int)[0] == ca);
        assert(b@.skip(i as int)[0] == cb);
        if ca != cb {
            return ca < cb;
        }
        assert(a@.skip(i as int).drop_first() =~= a@.skip(i as int + 1));
        assert(b@.skip(i as int).drop_first() =~= b@.skip(i as int + 1));
        i = i + 1;
    }
    assert(a@.skip(i as int).len() == 0 || b@.skip(i as int).len() == 0);
    i < nb
}

/// Is `a` strictly before `b` once both are ASCII-lower-cased?
pub fn ci_less(a: &str, b: &str) -> (r: bool)
    ensures
        r == ci_lt(a@, b@),
{
    let na = a.unicode_len();
    let nb = b.unicode_len();
    let ghost la = lowered(a@);
    let ghost lb = lowered(b@);
    let mut i: usize = 0;
    assert(la.skip(0) =~= la);
    assert(lb.skip(0) =~= lb);
    while i < na && i < nb
        invariant
            na == a@.len(),
            nb == b@.len(),
            la == lowered(a@),
            lb == lowered(b@),
            i <= na,
            i <= nb,
            lex_lt(la, lb) == lex_lt(la.skip(i as int), lb.skip(i as int)),
        decreases na - i,
    {
        let ca = ascii_lower(a.get_char(i));
        let cb = ascii_lower(b.get_char(i));
        assert(la.skip(i as int)[0] == ca);
        assert(lb.skip(i as int)[0] == cb);
        if ca != cb {
            return ca < cb;
        }
        assert(la.skip(i as int).drop_first() =~= la.skip(i as int + 1));
        assert(lb.skip(i as int).drop_first() =~= lb.skip(i as int + 1));
        i = i + 1;
    }
    assert(la.skip(i as int).len() == 0 || lb.skip(i as int).len() == 0);
    i < nb
}

/// Does `y` begin with `a`?
pub open spec fn starts_with(y: Seq<char>, a: Seq<char>) -> bool {
    a.len() <= y.len() && forall|i: int| 0 <= i < a.len() ==> y[i] == a[i]
}

/// A sequence that begins with `a` does not come before `a`.
pub proof fn lemma_prefix_not_before(y: Seq<char>, a: Seq<char>)
    requires
        starts_with(y, a),
    ensures
        !lex_lt(y, a),
    decreases a.len(),
{
    if a.len() > 0 {
        assert forall|i: int| 0 <= i < a.drop_first().len() implies y.drop_first()[i] == a.drop_first()[i] by {
            assert(y[i + 1] == a[i + 1]);
        }
        lemma_prefix_not_before(y.drop_first(), a.drop_first());
    }
}

/// Anything between `a` and a sequence beginning with `a` begins with `a`
/// too.
pub proof fn lemma_prefix_between(a: Seq<char>, x: Seq<char>, y: Seq<char>)
    requires
        starts_with(y, a),
        !lex_lt(x, a),
        !lex_lt(y, x),
    ensures
        starts_with(x, a),
    decreases a.len(),
{
    if a.len() > 0 {
        assert(y[0] == a[0]);
        assert(x.len() > 0);
        assert(x[0] == a[0]);
        assert forall|i: int| 0 <= i < a.drop_first().len() implies y.drop_first()[i] == a.drop_first()[i] by {
            assert(y[i + 1] == a[i + 1]);
        }
        lemma_prefix_between(a.drop_first(), x.drop_first(), y.drop_first());
        assert forall|i: int| 0 <= i < a.len() implies x[i] == a[i] by {
            if i > 0 {
                assert(x[i] == x.drop_first()[i - 1]);
                assert(a[i] == a.drop_first()[i - 1]);
            }
        }
    }
}

/// Beginning with `key` case-insensitively is beginning with it once both
/// are lower-cased.
pub proof fn lemma_ci_prefix_lowered(x: Seq<char>, key: Seq<char>)
    ensures
        spec_ci_prefix_eq(x, key, key.len() as int) <==> starts_with(lowered(x), lowered(key)),
{
    if spec_ci_prefix_eq(x, key, key.len() as int) {
        assert forall|i: int| 0 <= i < lowered(key).len() implies lowered(x)[i] == lowered(key)[i] by {
            assert(lower(x[i]) == lower(key[i]));
        }
    }
    if starts_with(lowered(x), lowered(key)) {
        assert forall|i: int| 0 <= i < key.len() implies lower(#[trigger] x[i]) == lower(key[i]) by {
            assert(lowered(x)[i] == lowered(key)[i]);
        }
    }
}

/// Do the first `n` characters of `a` and `b` agree case-insensitively (both
/// being at least `n` long)?
pub open spec fn spec_ci_prefix_eq(a: Seq<char>, b: Seq<char>, n: int) -> bool {
    &&& a.len() >= n
    &&& b.len() >= n
    &&& forall|i: int| 0 <= i < n ==> lower(#[trigger] a[i]) == lower(b[i])
}

/// Case-insensitive equality of the first `n` characters (`strnicmp`); false
/// when either is shorter than `n`.
pub fn ci_prefix_eq(a: &[char], b: &[char], n: usize) -> (r: bool)
    ensures
        r == spec_ci_prefix_eq(a@, b@, n as int),
{
    if a.len() < n || b.len() < n {
        return false;
    }
    let mut i: usize = 0;
    while i < n
        invariant
            i <= n,
            n <= a@.len(),
            n <= b@.len(),
            forall|k: int| 0 <= k < i ==> lower(#[trigger] a@[k]) == lower(b@[k]),
        decreases n - i,
    {
        if ascii_lower(a[i]) != ascii_lower(b[i]) {
            return false;
        }
        i = i + 1;
    }
    true
}

/// `s` with `c` appended (`String::push`).
#[verifier::external_body]
pub(crate) fn push_char(s: &mut String, c: char)
    ensures
        final(s)@ == old(s)@.push(c),
{
    s.push(c);
}

/// The string holding exactly `chars`.
pub fn string_of(chars: &Vec<char>) -> (s: String)
    ensures
        s@ == chars@,
{
    let mut s = String::new();
    let mut i: usize = 0;
    while i < chars.len()
        invariant
            i <= chars@.len(),
            s@ == chars@.take(i as int),
        decreases chars@.len() - i,
    {
        push_char(&mut s, chars[i]);
        assert(s@ =~= chars@.take(i as int + 1));
        i = i + 1;
    }
    assert(chars@.take(chars@.len() as int) =~= chars@);
    s
}

} // verus!
