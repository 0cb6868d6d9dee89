//! Verified helpers for working with strings as sequences of characters.
//!
//! Parsing in this crate runs over `Vec<char>` so that every step can be
//! related to `Seq<char>` views; these helpers convert between `&str`,
//! `String` and `Vec<char>` and provide the small lexical operations the
//! parsers need.

use vstd::prelude::*;

verus! {

/// Whether `c` is an ASCII decimal digit.
pub open spec fn spec_is_digit(c: char) -> bool {
    48 <= c as u32 && c as u32 <= 57
}

/// Numeric value of an ASCII digit.
pub open spec fn spec_digit_value(c: char) -> nat {
    (c as u32 - 48) as nat
}

/// Whether `c` is one of the four ASCII whitespace characters `trim` removes.
pub open spec fn spec_is_space(c: char) -> bool {
    c == ' ' || c == '\t' || c == '\n' || c == '\r'
}

pub fn is_space(c: char) -> (r: bool)
    ensures
        r == spec_is_space(c),
{
    c == ' ' || c == '\t' || c == '\n' || c == '\r'
}

pub fn is_digit(c: char) -> (r: bool)
    ensures
        r == spec_is_digit(c),
{
    let u = c as u32;
    48 <= u && u <= 57
}

/// Collect the characters of a string slice into a vector.
pub fn chars_of(s: &str) -> (v: Vec<char>)
    ensures
        v@ == s@,
{
    let n = s.unicode_len();
    let mut v: Vec<char> = Vec::new();
    let mut i: usize = 0;
    while i < n
        invariant
            n == s@.len(),
            i <= n,
            v@ == s@.take(i as int),
        decreases n - i,
    {
        v.push(s.get_char(i));
        i += 1;
        proof {
            assert(v@ =~= s@.take(i as int));
        }
    }
    proof {
        assert(s@.take(n as int) =~= s@);
    }
    v
}

/// Relies on `String::push`: appends one character to the string.
#[verifier::external_body]
fn push_char(s: &mut String, c: char)
    ensures
        final(s)@ == old(s)@.push(c),
{
    s.push(c);
}

/// Build a `String` from a vector of characters.
pub fn string_of(v: &Vec<char>) -> (s: String)
    ensures
        s@ == v@,
{
    let mut s = String::new();
    let mut i: usize = 0;
    while i < v.len()
        invariant
            i <= v@.len(),
            s@ == v@.take(i as int),
        decreases v@.len() - i,
    {
        push_char(&mut s, v[i]);
        i += 1;
        proof {
            assert(s@ =~= v@.take(i as int));
        }
    }
    proof {
        assert(v@.take(v@.len() as int) =~= v@);
    }
    s
}

/// Copy of `v[from..to]`.
pub fn subvec(v: &Vec<char>, from: usize, to: usize) -> (r: Vec<char>)
    requires
        from <= to <= v@.len(),
    ensures
        r@ == v@.subrange(from as int, to as int),
{
    let mut r: Vec<char> = Vec::new();
    let mut i: usize = from;
    while i < to
        invariant
            from <= i <= to <= v@.len(),
            r@ == v@.subrange(from as int, i as int),
        decreases to - i,
    {
        r.push(v[i]);
        i += 1;
        proof {
            assert(r@ =~= v@.subrange(from as int, i as int));
        }
    }
    r
}

/// Whether `s` ends with `t`.
pub open spec fn spec_ends_with(s: Seq<char>, t: Seq<char>) -> bool {
    s.len() >= t.len() && s.skip(s.len() - t.len()) == t
}

/// Whether `s` starts with `t`.
pub open spec fn spec_starts_with(s: Seq<char>, t: Seq<char>) -> bool {
    s.len() >= t.len() && s.take(t.len() as int) == t
}

/// Strict lexicographic order on character sequences, by code point; the
/// order `str`'s `Ord` gives.
pub open spec fn spec_lex_lt(a: Seq<char>, b: Seq<char>) -> bool
    decreases a.len(),
{
    if b.len() == 0 {
        false
    } else if a.len() == 0 {
        true
    } else if (a[0] as u32) != (b[0] as u32) {
        (a[0] as u32) < (b[0] as u32)
    } else {
        spec_lex_lt(a.skip(1), b.skip(1))
    }
}

/// From `a <= b` and `b < c` follows `a < c`.
pub proof fn lemma_lex_le_lt_trans(a: Seq<char>, b: Seq<char>, c: Seq<char>)
    requires
        !spec_lex_lt(b, a),
        spec_lex_lt(b, c),
    ensures
        spec_lex_lt(a, c),
    decreases a.len() + b.len() + c.len(),
{
    if b.len() == 0 {
        assert(a.len() == 0);
    } else if a.len() == 0 {
    } else if (b[0] as u32) != (c[0] as u32) {
        if (a[0] as u32) == (b[0] as u32) {
        } else {
            assert((a[0] as u32) < (b[0] as u32));
        }
    } else {
        if (a[0] as u32) == (b[0] as u32) {
            lemma_lex_le_lt_trans(a.skip(1), b.skip(1), c.skip(1));
        } else {
            assert((a[0] as u32) < (b[0] as u32));
        }
    }
}

/// The order is irreflexive.
pub proof fn lemma_lex_irrefl(a: Seq<char>)
    ensures
        !spec_lex_lt(a, a),
    decreases a.len(),
{
    if a.len() > 0 {
        lemma_lex_irrefl(a.skip(1));
    }
}

/// The order is asymmetric.
pub proof fn lemma_lex_asym(a: Seq<char>, b: Seq<char>)
    requires
        spec_lex_lt(a, b),
    ensures
        !spec_lex_lt(b, a),
    decreases a.len(),
{
    if a.len() > 0 && b.len() > 0 && (a[0] as u32) == (b[0] as u32) {
        lemma_lex_asym(a.skip(1), b.skip(1));
    }
}

/// Compare two character vectors lexicographically.
pub fn lex_lt(a: &Vec<char>, b: &Vec<char>) -> (r: bool)
    ensures
        r == spec_lex_lt(a@, b@),
{
    let mut i: usize = 0;
    proof {
        assert(a@.skip(0) =~= a@);
        assert(b@.skip(0) =~= b@);
    }
    while i < a.len() && i < b.len()
        invariant
            i <= a@.len(),
            i <= b@.len(),
            spec_lex_lt(a@, b@) == spec_lex_lt(a@.skip(i as int), b@.skip(i as int)),
        decreases a@.len() - i,
    {
        proof {
            assert(a@.skip(i as int)[0] == a@[i as int]);
            assert(b@.skip(i as int)[0] == b@[i as int]);
            assert(a@.skip(i as int).skip(1) =~= a@.skip(i + 1));
            assert(b@.skip(i as int).skip(1) =~= b@.skip(i + 1));
        }
        if (a[i] as u32) != (b[i] as u32) {
            return (a[i] as u32) < (b[i] as u32);
        }
        i += 1;
    }
    a.len() < b.len()
}

/// Whether two string slices hold the same characters.
pub fn str_eq(a: &str, b: &str) -> (r: bool)
    ensures
        r == (a@ == b@),
{
    let v = chars_of(a);
    vec_eq_str(&v, b)
}

/// Whether the characters of `v` equal the characters of `s`.
pub fn vec_eq_str(v: &Vec<char>, s: &str) -> (r: bool)
    ensures
        r == (v@ == s@),
{
    let n = s.unicode_len();
    if v.len() != n {
        proof {
            assert(v@ != s@) by {
                assert(v@.len() != s@.len());
            }
        }
        return false;
    }
    let mut i: usize = 0;
    while i < n
        invariant
            n == s@.len(),
            v@.len() == n,
            i <= n,
            forall|j: int| 0 <= j < i ==> v@[j] == s@[j],
        decreases n - i,
    {
        if v[i] != s.get_char(i) {
            return false;
        }
        i += 1;
    }
    proof {
        assert(v@ =~= s@);
    }
    true
}

/// Whether `v` ends with the characters of `s`.
pub fn vec_ends_with_str(v: &Vec<char>, s: &str) -> (r: bool)
    ensures
        r == spec_ends_with(v@, s@),
{
    let n = s.unicode_len();
    if v.len() < n {
        return false;
    }
    let start = v.len() - n;
    let mut i: usize = 0;
    while i < n
        invariant
            n == s@.len(),
            v@.len() >= n,
            v@.len() <= usize::MAX,
            start == v@.len() - n,
            i <= n,
            forall|j: int| 0 <= j < i ==> v@[start + j] == s@[j],
        decreases n - i,
    {
        proof {
            assert(start + i < v@.len());
        }
        if v[start + i] != s.get_char(i) {
            proof {
                assert(v@.skip(v@.len() - s@.len())[i as int] != s@[i as int]);
            }
            return false;
        }
        i += 1;
    }
    proof {
        assert(v@.skip(v@.len() - s@.len()) =~= s@);
    }
    true
}

/// Whether `v` starts with the characters of `s`.
pub fn vec_starts_with_str(v: &Vec<char>, s: &str) -> (r: bool)
    ensures
        r == spec_starts_with(v@, s@),
{
    let n = s.unicode_len();
    if v.len() < n {
        return false;
    }
    let mut i: usize = 0;
    while i < n
        invariant
            n == s@.len(),
            v@.len() >= n,
            i <= n,
            forall|j: int| 0 <= j < i ==> v@[j] == s@[j],
        decreases n - i,
    {
        if v[i] != s.get_char(i) {
            proof {
                assert(v@.take(s@.len() as int)[i as int] != s@[i as int]);
            }
            return false;
        }
        i += 1;
    }
    proof {
        assert(v@.take(s@.len() as int) =~= s@);
    }
    true
}

/// Index of the first occurrence of `c` in `s`, or `s.len()` if absent.
pub open spec fn spec_find(s: Seq<char>, c: char) -> int
    decreases s.len(),
{
    if s.len() == 0 {
        0
    } else if s[0] == c {
        0
    } else {
        1 + spec_find(s.skip(1), c)
    }
}

pub proof fn lemma_find(s: Seq<char>, c: char)
    ensures
        0 <= spec_find(s, c) <= s.len(),
        spec_find(s, c) < s.len() ==> s[spec_find(s, c)] == c,
        forall|j: int| 0 <= j < spec_find(s, c) ==> s[j] != c,
    decreases s.len(),
{
    if s.len() > 0 && s[0] != c {
        lemma_find(s.skip(1), c);
        assert forall|j: int| 0 <= j < spec_find(s, c) implies s[j] != c by {
            if j > 0 {
                assert(s.skip(1)[j - 1] != c);
            }
        }
    }
}

/// Whether `s` contains `c`.
pub open spec fn spec_contains(s: Seq<char>, c: char) -> bool {
    exists|i: int| 0 <= i < s.len() && s[i] == c
}

pub proof fn lemma_find_contains(s: Seq<char>, c: char)
    ensures
        spec_contains(s, c) <==> spec_find(s, c) < s.len(),
{
    lemma_find(s, c);
    if spec_find(s, c) < s.len() {
        assert(s[spec_find(s, c)] == c);
    }
}

/// First index of `c` in `v`, if any.
pub fn find_char(v: &Vec<char>, c: char) -> (r: Option<usize>)
    ensures
        match r {
            Some(i) => i == spec_find(v@, c) && i < v@.len() && v@[i as int] == c,
            None => spec_find(v@, c) == v@.len(),
        },
{
    proof {
        lemma_find(v@, c);
    }
    let mut i: usize = 0;
    while i < v.len()
        invariant
            i <= v@.len(),
            forall|j: int| 0 <= j < i ==> v@[j] != c,
            0 <= spec_find(v@, c) <= v@.len(),
            spec_find(v@, c) < v@.len() ==> v@[spec_find(v@, c)] == c,
            forall|j: int| 0 <= j < spec_find(v@, c) ==> v@[j] != c,
        decreases v@.len() - i,
    {
        if v[i] == c {
            return Some(i);
        }
        i += 1;
    }
    None
}

pub fn contains_char(v: &Vec<char>, c: char) -> (r: bool)
    ensures
        r == spec_contains(v@, c),
{
    proof {
        lemma_find_contains(v@, c);
    }
    match find_char(v, c) {
        Some(_) => true,
        None => false,
    }
}

/// Split `s` at every occurrence of `sep`; always yields at least one part.
pub open spec fn spec_split(s: Seq<char>, sep: char) -> Seq<Seq<char>>
    decreases s.len(),
{
    if s.len() == 0 {
        seq![Seq::<char>::empty()]
    } else if s[0] == sep {
        seq![Seq::<char>::empty()] + spec_split(s.skip(1), sep)
    } else {
        let rest = spec_split(s.skip(1), sep);
        rest.update(0, seq![s[0]] + rest[0])
    }
}

/// Join `parts` with `sep` between consecutive parts.
pub open spec fn spec_join(parts: Seq<Seq<char>>, sep: char) -> Seq<char>
    decreases parts.len(),
{
    if parts.len() == 0 {
        Seq::<char>::empty()
    } else if parts.len() == 1 {
        parts[0]
    } else {
        parts[0] + seq![sep] + spec_join(parts.skip(1), sep)
    }
}

pub proof fn lemma_split_basic(s: Seq<char>, sep: char)
    ensures
        spec_split(s, sep).len() >= 1,
        forall|k: int|
            0 <= k < spec_split(s, sep).len() ==> !spec_contains(
                #[trigger] spec_split(s, sep)[k],
                sep,
            ),
        spec_join(spec_split(s, sep), sep) == s,
    decreases s.len(),
{
    if s.len() == 0 {
    } else if s[0] == sep {
        lemma_split_basic(s.skip(1), sep);
        let r = spec_split(s, sep);
        assert forall|k: int| 0 <= k < r.len() implies !spec_contains(#[trigger] r[k], sep) by {
            if k > 0 {
                assert(r[k] == spec_split(s.skip(1), sep)[k - 1]);
            } else {
                assert(r[0].len() == 0);
            }
        }
        assert(r.skip(1) =~= spec_split(s.skip(1), sep));
        assert(r.len() >= 2);
        assert(spec_join(r, sep) == r[0] + seq![sep] + spec_join(r.skip(1), sep));
        assert(r[0] =~= Seq::<char>::empty());
        assert(Seq::<char>::empty() + seq![sep] + s.skip(1) =~= s);
    } else {
        lemma_split_basic(s.skip(1), sep);
        let rest = spec_split(s.skip(1), sep);
        let r = spec_split(s, sep);
        assert(r == rest.update(0, seq![s[0]] + rest[0]));
        assert forall|k: int| 0 <= k < r.len() implies !spec_contains(#[trigger] r[k], sep) by {
            if k == 0 {
                assert(!spec_contains(rest[0], sep));
                assert forall|i: int| 0 <= i < r[0].len() implies r[0][i] != sep by {
                    if i > 0 {
                        assert(r[0][i] == rest[0][i - 1]);
                    }
                }
            } else {
                assert(r[k] == rest[k]);
            }
        }
        if rest.len() == 1 {
            assert(r.len() == 1);
            assert(spec_join(r, sep) == r[0]);
            assert(spec_join(rest, sep) == rest[0]);
            assert(spec_join(r, sep) =~= s);
        } else {
            assert(spec_join(r, sep) =~= r[0] + seq![sep] + spec_join(r.skip(1), sep));
            assert(r.skip(1) =~= rest.skip(1));
            assert(spec_join(rest, sep) =~= rest[0] + seq![sep] + spec_join(rest.skip(1), sep));
            assert(r[0] == seq![s[0]] + rest[0]);
            assert(s =~= seq![s[0]] + s.skip(1));
            assert(s.skip(1) == spec_join(rest, sep));
            assert(spec_join(r, sep) =~= s);
        }
    }
}

/// Appending a character to the last part appends it to the joined string.
proof fn lemma_join_push_last(parts: Seq<Seq<char>>, sep: char, c: char)
    requires
        parts.len() >= 1,
    ensures
        spec_join(parts.update(parts.len() - 1, parts.last().push(c)), sep) == spec_join(
            parts,
            sep,
        ).push(c),
    decreases parts.len(),
{
    let updated = parts.update(parts.len() - 1, parts.last().push(c));
    if parts.len() == 1 {
        assert(spec_join(updated, sep) == updated[0]);
        assert(updated[0] =~= parts[0].push(c));
        assert(spec_join(parts, sep).push(c) =~= parts[0].push(c));
    } else {
        lemma_join_push_last(parts.skip(1), sep, c);
        assert(updated.skip(1) =~= parts.skip(1).update(parts.skip(1).len() - 1, parts.skip(
            1,
        ).last().push(c)));
        assert(updated[0] == parts[0]);
        assert(spec_join(updated, sep) =~= updated[0] + seq![sep] + spec_join(updated.skip(1), sep));
        assert(spec_join(parts, sep).push(c) =~= parts[0] + seq![sep] + spec_join(
            parts.skip(1),
            sep,
        ).push(c));
    }
}

/// Starting a new empty part appends the separator to the joined string.
proof fn lemma_join_new_part(parts: Seq<Seq<char>>, sep: char)
    requires
        parts.len() >= 1,
    ensures
        spec_join(parts + seq![Seq::<char>::empty()], sep) == spec_join(parts, sep).push(sep),
    decreases parts.len(),
{
    let ext = parts + seq![Seq::<char>::empty()];
    if parts.len() == 1 {
        assert(ext.len() == 2);
        assert(ext.skip(1) =~= seq![Seq::<char>::empty()]);
        assert(spec_join(ext.skip(1), sep) == Seq::<char>::empty());
        assert(spec_join(ext, sep) =~= ext[0] + seq![sep] + Seq::<char>::empty());
        assert(spec_join(ext, sep) =~= parts[0].push(sep));
    } else {
        lemma_join_new_part(parts.skip(1), sep);
        assert(ext.skip(1) =~= parts.skip(1) + seq![Seq::<char>::empty()]);
        assert(spec_join(ext, sep) =~= ext[0] + seq![sep] + spec_join(ext.skip(1), sep));
        assert(spec_join(parts, sep).push(sep) =~= parts[0] + seq![sep] + spec_join(
            parts.skip(1),
            sep,
        ).push(sep));
    }
}

/// A string with no separator splits into itself alone.
pub proof fn lemma_split_sepfree(t: Seq<char>, sep: char)
    requires
        !spec_contains(t, sep),
    ensures
        spec_split(t, sep) == seq![t],
    decreases t.len(),
{
    if t.len() == 0 {
        assert(t =~= Seq::<char>::empty());
        assert(spec_split(t, sep) =~= seq![t]);
    } else {
        assert(t[0] != sep);
        assert(!spec_contains(t.skip(1), sep)) by {
            assert forall|i: int| 0 <= i < t.skip(1).len() implies t.skip(1)[i] != sep by {
                assert(t.skip(1)[i] == t[i + 1]);
            }
        }
        lemma_split_sepfree(t.skip(1), sep);
        let rest = spec_split(t.skip(1), sep);
        assert(rest == seq![t.skip(1)]);
        assert(spec_split(t, sep) =~= seq![seq![t[0]] + t.skip(1)]);
        assert(seq![t[0]] + t.skip(1) =~= t);
        assert(spec_split(t, sep) =~= seq![t]);
    }
}

/// Splitting is the inverse of joining separator-free parts.
pub proof fn lemma_split_of_join(parts: Seq<Seq<char>>, sep: char)
    requires
        parts.len() >= 1,
        forall|k: int| 0 <= k < parts.len() ==> !spec_contains(#[trigger] parts[k], sep),
    ensures
        spec_split(spec_join(parts, sep), sep) == parts,
    decreases parts.len(), parts[0].len(),
{
    if parts.len() == 1 {
        lemma_split_sepfree(parts[0], sep);
        assert(spec_split(spec_join(parts, sep), sep) =~= parts);
    } else {
        let s = spec_join(parts, sep);
        assert(s == parts[0] + seq![sep] + spec_join(parts.skip(1), sep));
        if parts[0].len() == 0 {
            assert(s.len() > 0 && s[0] == sep);
            assert(s.skip(1) =~= spec_join(parts.skip(1), sep));
            lemma_split_of_join(parts.skip(1), sep);
            assert(spec_split(s, sep) =~= seq![Seq::<char>::empty()] + parts.skip(1));
            assert(parts[0] =~= Seq::<char>::empty());
            assert(seq![Seq::<char>::empty()] + parts.skip(1) =~= parts);
        } else {
            let c = parts[0][0];
            assert(s.len() > 0 && s[0] == c);
            assert(c != sep);
            let shrunk = parts.update(0, parts[0].skip(1));
            assert(forall|k: int|
                0 <= k < shrunk.len() ==> !spec_contains(#[trigger] shrunk[k], sep)) by {
                assert forall|k: int|
                    0 <= k < shrunk.len() implies !spec_contains(#[trigger] shrunk[k], sep) by {
                    if k == 0 {
                        assert forall|i: int| 0 <= i < shrunk[0].len() implies shrunk[0][i]
                            != sep by {
                            assert(shrunk[0][i] == parts[0][i + 1]);
                        }
                    } else {
                        assert(shrunk[k] == parts[k]);
                    }
                }
            }
            lemma_split_of_join(shrunk, sep);
            assert(s.skip(1) =~= spec_join(shrunk, sep)) by {
                assert(shrunk.skip(1) =~= parts.skip(1));
                assert(spec_join(shrunk, sep) =~= shrunk[0] + seq![sep] + spec_join(
                    shrunk.skip(1),
                    sep,
                ));
            }
            let rest = spec_split(s.skip(1), sep);
            assert(rest == shrunk);
            assert(spec_split(s, sep) == rest.update(0, seq![c] + rest[0]));
            assert(seq![c] + rest[0] =~= parts[0]);
            assert(spec_split(s, sep) =~= parts);
        }
    }
}

/// View of a vector of character vectors.
pub open spec fn views_of(parts: Seq<Vec<char>>) -> Seq<Seq<char>> {
    parts.map_values(|p: Vec<char>| p@)
}

/// Split `v` at every `sep`, as `str::split` does.
pub fn split_char(v: &Vec<char>, sep: char) -> (parts: Vec<Vec<char>>)
    ensures
        views_of(parts@) == spec_split(v@, sep),
        parts@.len() >= 1,
{
    let mut done: Vec<Vec<char>> = Vec::new();
    let mut cur: Vec<char> = Vec::new();
    let mut i: usize = 0;
    while i < v.len()
        invariant
            i <= v@.len(),
            spec_join(views_of(done@) + seq![cur@], sep) == v@.take(i as int),
            forall|k: int| 0 <= k < done@.len() ==> !spec_contains(#[trigger] views_of(done@)[k], sep),
            !spec_contains(cur@, sep),
        decreases v@.len() - i,
    {
        let ghost prev = views_of(done@) + seq![cur@];
        let ghost prev_done = views_of(done@);
        let ghost prev_cur = cur@;
        let c = v[i];
        if c == sep {
            done.push(cur);
            cur = Vec::new();
            proof {
                lemma_join_new_part(prev, sep);
                assert(views_of(done@) =~= prev_done + seq![prev_cur]);
                assert(views_of(done@) + seq![cur@] =~= prev + seq![Seq::<char>::empty()]);
                assert(v@.take(i + 1) =~= v@.take(i as int).push(c));
                assert forall|k: int| 0 <= k < done@.len() implies !spec_contains(
                    #[trigger] views_of(done@)[k],
                    sep,
                ) by {
                    if k < done@.len() - 1 {
                        assert(views_of(done@)[k] == prev_done[k]);
                    } else {
                        assert(views_of(done@)[k] == prev_cur);
                    }
                }
            }
        } else {
            cur.push(c);
            proof {
                lemma_join_push_last(prev, sep, c);
                assert(views_of(done@) + seq![cur@] =~= prev.update(prev.len() - 1, prev.last().push(c)));
                assert(v@.take(i + 1) =~= v@.take(i as int).push(c));
                assert(forall|j: int| 0 <= j < cur@.len() - 1 ==> cur@[j] == prev.last()[j]);
                assert forall|j: int| 0 <= j < cur@.len() implies cur@[j] != sep by {
                    if j < cur@.len() - 1 {
                        assert(prev.last()[j] != sep);
                    }
                }
            }
        }
        i += 1;
    }
    let ghost prev = views_of(done@) + seq![cur@];
    let ghost prev_done = views_of(done@);
    let ghost prev_cur = cur@;
    done.push(cur);
    proof {
        assert(v@.take(v@.len() as int) =~= v@);
        let all = views_of(done@);
        assert(all =~= prev_done + seq![prev_cur]);
        assert(all =~= prev);
        assert(spec_join(all, sep) == v@);
        assert forall|k: int| 0 <= k < all.len() implies !spec_contains(#[trigger] all[k], sep) by {
            if k < all.len() - 1 {
                assert(all[k] == prev_done[k]);
            } else {
                assert(all[k] == prev_cur);
            }
        }
        lemma_split_of_join(all, sep);
    }
    done
}

/// Join parts with `sep`, as `[&str]::join` does.
pub fn join_char(parts: &Vec<Vec<char>>, sep: char) -> (r: Vec<char>)
    requires
        parts@.len() >= 1,
    ensures
        r@ == spec_join(views_of(parts@), sep),
{
    let mut r: Vec<char> = Vec::new();
    let mut k: usize = 0;
    proof {
        assert(parts@.skip(0) =~= parts@);
        assert(Seq::<char>::empty() + spec_join(views_of(parts@), sep) =~= spec_join(
            views_of(parts@),
            sep,
        ));
    }
    while k < parts.len()
        invariant
            k <= parts@.len(),
            parts@.len() >= 1,
            r@ + spec_join(views_of(parts@.skip(k as int)), sep) == spec_join(
                views_of(parts@),
                sep,
            ),
            k == parts@.len() ==> r@ == spec_join(views_of(parts@), sep),
        decreases parts@.len() - k,
    {
        let ghost pre = r@;
        let part = &parts[k];
        let mut j: usize = 0;
        while j < part.len()
            invariant
                j <= part@.len(),
                r@ == pre + part@.take(j as int),
            decreases part@.len() - j,
        {
            r.push(part[j]);
            j += 1;
            proof {
                assert(r@ =~= pre + part@.take(j as int));
            }
        }
        proof {
            assert(part@.take(part@.len() as int) =~= part@);
            assert(r@ =~= pre + parts@[k as int]@);
        }
        if k + 1 < parts.len() {
            r.push(sep);
        }
        k += 1;
        proof {
            let vs = views_of(parts@);
            let tail = views_of(parts@.skip(k - 1));
            let tail2 = views_of(parts@.skip(k as int));
            assert(tail[0] == parts@[k - 1]@);
            if k < parts@.len() {
                assert(tail.len() >= 2);
                assert(spec_join(tail, sep) == tail[0] + seq![sep] + spec_join(tail.skip(1), sep));
                assert(tail.skip(1) =~= tail2);
                assert(r@ =~= (pre + tail[0]) + seq![sep]);
                assert(r@ + spec_join(tail2, sep) =~= pre + spec_join(tail, sep));
            } else {
                assert(tail.len() == 1);
                assert(spec_join(tail, sep) == tail[0]);
                assert(r@ =~= pre + tail[0]);
                assert(r@ == spec_join(vs, sep));
                assert(tail2.len() == 0);
                assert(r@ + spec_join(tail2, sep) =~= r@);
            }
        }
    }
    r
}

/// Value of a sequence of decimal digits, most significant first.
pub open spec fn spec_digits_value(s: Seq<char>) -> nat
    decreases s.len(),
{
    if s.len() == 0 {
        0
    } else {
        spec_digits_value(s.drop_last()) * 10 + spec_digit_value(s.last())
    }
}

/// Whether `s` is one or more decimal digits.
pub open spec fn spec_all_digits(s: Seq<char>) -> bool {
    s.len() > 0 && forall|i: int| 0 <= i < s.len() ==> spec_is_digit(#[trigger] s[i])
}

/// What `str::parse::<u64>` returns: an optional leading `+`, then digits,
/// rejecting overflow.
pub open spec fn spec_parse_u64(s: Seq<char>) -> Option<u64> {
    let d = if s.len() > 0 && s[0] == '+' {
        s.skip(1)
    } else {
        s
    };
    if spec_all_digits(d) && spec_digits_value(d) <= u64::MAX {
        Some(spec_digits_value(d) as u64)
    } else {
        None
    }
}

proof fn lemma_digits_value_grows(s: Seq<char>, j: int)
    requires
        0 <= j <= s.len(),
    ensures
        spec_digits_value(s) >= spec_digits_value(s.take(j)),
    decreases s.len() - j,
{
    if j < s.len() {
        lemma_digits_value_grows(s.drop_last(), j);
        assert(s.drop_last().take(j) =~= s.take(j));
        assert(spec_digits_value(s.drop_last()) * 10 >= spec_digits_value(s.drop_last()));
    } else {
        assert(s.take(j) =~= s);
    }
}

/// Parse the decimal digits `d` (already stripped of any sign).
fn parse_digits(d: &Vec<char>) -> (r: Option<u64>)
    ensures
        r == (if spec_all_digits(d@) && spec_digits_value(d@) <= u64::MAX {
            Some(spec_digits_value(d@) as u64)
        } else {
            None::<u64>
        }),
{
    if d.len() == 0 {
        return None;
    }
    let mut acc: u64 = 0;
    let mut i: usize = 0;
    while i < d.len()
        invariant
            i <= d@.len(),
            d@.len() > 0,
            forall|j: int| 0 <= j < i ==> spec_is_digit(#[trigger] d@[j]),
            acc == spec_digits_value(d@.take(i as int)),
        decreases d@.len() - i,
    {
        let c = d[i];
        if !is_digit(c) {
            return None;
        }
        let dv: u64 = (c as u32 - 48) as u64;
        let next = match acc.checked_mul(10) {
            Some(m) => m.checked_add(dv),
            None => None,
        };
        match next {
            Some(n) => {
                acc = n;
            },
            None => {
                proof {
                    assert(d@.take(i + 1).drop_last() =~= d@.take(i as int));
                    assert(spec_digits_value(d@.take(i + 1)) > u64::MAX);
                    lemma_digits_value_grows(d@, i + 1);
                }
                return None;
            },
        }
        i += 1;
        proof {
            assert(d@.take(i as int).drop_last() =~= d@.take(i - 1));
            assert(d@.take(i as int).last() == d@[i - 1]);
        }
    }
    proof {
        assert(d@.take(d@.len() as int) =~= d@);
    }
    Some(acc)
}

/// Parse a `u64` from characters, matching `str::parse::<u64>`.
pub fn parse_u64_chars(v: &Vec<char>) -> (r: Option<u64>)
    ensures
        r == spec_parse_u64(v@),
{
    if v.len() > 0 && v[0] == '+' {
        let rest = subvec(v, 1, v.len());
        parse_digits(&rest)
    } else {
        parse_digits(v)
    }
}

/// Parse a `u64` from a string slice, matching `str::parse::<u64>`.
pub fn parse_u64_str(s: &str) -> (r: Option<u64>)
    ensures
        r == spec_parse_u64(s@),
{
    let v = chars_of(s);
    parse_u64_chars(&v)
}

/// ASCII digit character for `d`.
pub open spec fn spec_digit_char(d: nat) -> char {
    ((48 + d % 10) as u8) as char
}

/// Decimal representation of `n`, without leading zeros.
pub open spec fn spec_u64_digits(n: nat) -> Seq<char>
    decreases n,
{
    if n < 10 {
        seq![spec_digit_char(n)]
    } else {
        spec_u64_digits(n / 10).push(spec_digit_char(n % 10))
    }
}

/// Format `n` in decimal, as `u64`'s `Display` does.
pub fn u64_to_chars(n: u64) -> (r: Vec<char>)
    ensures
        r@ == spec_u64_digits(n as nat),
{
    let mut rev: Vec<char> = Vec::new();
    let mut m: u64 = n;
    proof {
        assert(spec_u64_digits(n as nat) =~= spec_u64_digits(n as nat) + rev@.reverse());
    }
    loop
        invariant_except_break
            spec_u64_digits(n as nat) == spec_u64_digits(m as nat) + rev@.reverse(),
        ensures
            spec_u64_digits(n as nat) == rev@.reverse(),
        decreases m,
    {
        let ghost old_rev = rev@;
        let d: u8 = 48 + (m % 10) as u8;
        rev.push(d as char);
        proof {
            assert(rev@.reverse() =~= seq![d as char] + old_rev.reverse());
            assert(d as char == spec_digit_char(m as nat));
        }
        if m < 10 {
            proof {
                assert(spec_u64_digits(m as nat) =~= seq![spec_digit_char(m as nat)]);
                assert(spec_u64_digits(n as nat) =~= rev@.reverse());
            }
            break;
        }
        proof {
            assert(spec_u64_digits(m as nat) == spec_u64_digits((m / 10) as nat).push(
                spec_digit_char(m as nat),
            ));
            assert(spec_u64_digits((m / 10) as nat).push(spec_digit_char(m as nat)) =~= spec_u64_digits(
                (m / 10) as nat,
            ) + seq![spec_digit_char(m as nat)]);
            assert(spec_u64_digits(n as nat) =~= spec_u64_digits((m / 10) as nat) + rev@.reverse());
        }
        m = m / 10;
    }
    let mut r: Vec<char> = Vec::new();
    let mut i: usize = rev.len();
    while i > 0
        invariant
            i <= rev@.len(),
            r@ == rev@.reverse().take(rev@.len() - i),
        decreases i,
    {
        i -= 1;
        r.push(rev[i]);
        proof {
            assert(rev@.reverse()[rev@.len() - i - 1] == rev@[i as int]);
            assert(r@ =~= rev@.reverse().take(rev@.len() - i));
        }
    }
    proof {
        assert(rev@.reverse().take(rev@.len() as int) =~= rev@.reverse());
    }
    r
}

/// Format `n` in decimal as a `String`.
pub fn u64_to_string(n: u64) -> (r: String)
    ensures
        r@ == spec_u64_digits(n as nat),
{
    let v = u64_to_chars(n);
    string_of(&v)
}

/// Lower-case image of an ASCII character, as `char::to_ascii_lowercase`.
pub open spec fn spec_lower_char(c: char) -> char {
    if 65 <= c as u32 && c as u32 <= 90 {
        ((c as u32 + 32) as u8) as char
    } else {
        c
    }
}

/// Lower-case image of a character sequence.
pub open spec fn spec_lower(s: Seq<char>) -> Seq<char> {
    s.map_values(|c: char| spec_lower_char(c))
}

/// ASCII lower-casing of a string.
pub fn to_ascii_lower(s: &str) -> (r: String)
    ensures
        r@ == spec_lower(s@),
{
    let v = chars_of(s);
    let mut out: Vec<char> = Vec::new();
    let mut i: usize = 0;
    while i < v.len()
        invariant
            i <= v@.len(),
            out@ == spec_lower(v@.take(i as int)),
        decreases v@.len() - i,
    {
        let c = v[i];
        let u = c as u32;
        if 65 <= u && u <= 90 {
            out.push(((u + 32) as u8) as char);
        } else {
            out.push(c);
        }
        i += 1;
        proof {
            assert(out@ =~= spec_lower(v@.take(i as int)));
        }
    }
    proof {
        assert(v@.take(v@.len() as int) =~= v@);
    }
    string_of(&out)
}

/// `s` with leading and trailing ASCII whitespace removed.
pub open spec fn spec_trim(s: Seq<char>) -> Seq<char> {
    spec_trim_end(spec_trim_start(s))
}

pub open spec fn spec_trim_start(s: Seq<char>) -> Seq<char>
    decreases s.len(),
{
    if s.len() > 0 && spec_is_space(s[0]) {
        spec_trim_start(s.skip(1))
    } else {
        s
    }
}

pub open spec fn spec_trim_end(s: Seq<char>) -> Seq<char>
    decreases s.len(),
{
    if s.len() > 0 && spec_is_space(s.last()) {
        spec_trim_end(s.drop_last())
    } else {
        s
    }
}

/// Trim ASCII whitespace from both ends of `v`.
#[verifier::rlimit(60)]
pub fn trim_chars(v: &Vec<char>) -> (r: Vec<char>)
    ensures
        r@ == spec_trim(v@),
{
    let mut start: usize = 0;
    proof {
        assert(v@.skip(0) =~= v@);
    }
    while start < v.len() && is_space(v[start])
        invariant
            start <= v@.len(),
            spec_trim_start(v@) == spec_trim_start(v@.skip(start as int)),
        decreases v@.len() - start,
    {
        proof {
            assert(v@.skip(start as int)[0] == v@[start as int]);
            assert(v@.skip(start as int).skip(1) =~= v@.skip(start + 1));
        }
        start += 1;
    }
    proof {
        if start < v@.len() {
            assert(v@.skip(start as int)[0] == v@[start as int]);
        }
        assert(spec_trim_start(v@.skip(start as int)) == v@.skip(start as int));
    }
    let mut end: usize = v.len();
    let ghost t = v@.skip(start as int);
    proof {
        assert(t =~= v@.subrange(start as int, v@.len() as int));
    }
    while end > start && is_space(v[end - 1])
        invariant
            start <= end <= v@.len(),
            t == v@.skip(start as int),
            spec_trim_start(v@) == t,
            spec_trim_end(t) == spec_trim_end(v@.subrange(start as int, end as int)),
        decreases end,
    {
        proof {
            let cur = v@.subrange(start as int, end as int);
            assert(cur.last() == v@[end - 1]);
            assert(cur.drop_last() =~= v@.subrange(start as int, end - 1));
        }
        end -= 1;
    }
    proof {
        let cur = v@.subrange(start as int, end as int);
        if end > start {
            assert(cur.last() == v@[end - 1]);
        }
        assert(spec_trim_end(cur) == cur);
    }
    subvec(v, start, end)
}

/// `p` with every trailing slash removed, as `trim_end_matches` does.
pub open spec fn spec_strip_trailing_slash(p: Seq<char>) -> Seq<char>
    decreases p.len(),
{
    if p.len() > 0 && p.last() == '/' {
        spec_strip_trailing_slash(p.drop_last())
    } else {
        p
    }
}

/// Trim every trailing slash, as `trim_end_matches('/')` does.
pub fn trim_trailing_slashes(v: &Vec<char>) -> (r: Vec<char>)
    ensures
        r@ == spec_strip_trailing_slash(v@),
{
    let mut end: usize = v.len();
    proof {
        assert(v@.subrange(0, v@.len() as int) =~= v@);
    }
    while end > 0 && v[end - 1] == '/'
        invariant
            end <= v@.len(),
            spec_strip_trailing_slash(v@) == spec_strip_trailing_slash(
                v@.subrange(0, end as int),
            ),
        decreases end,
    {
        proof {
            let cur = v@.subrange(0, end as int);
            assert(cur.last() == v@[end - 1]);
            assert(cur.drop_last() =~= v@.subrange(0, end - 1));
        }
        end -= 1;
    }
    proof {
        let cur = v@.subrange(0, end as int);
        if end > 0 {
            assert(cur.last() == v@[end - 1]);
        }
        assert(spec_strip_trailing_slash(cur) == cur);
    }
    let r = subvec(v, 0, end);
    r
}

} // verus!


