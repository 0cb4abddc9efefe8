//! Verified character-level text helpers: conversion between `String` and
//! `Vec<char>`, substring search, single-pass replacement, and trimming.
use vstd::prelude::*;

verus! {

/// Relies on std's `String::push`: appends the given character to the end of
/// the string.
pub assume_specification[ String::push ](s: &mut String, ch: char)
    ensures
        final(s)@ == old(s)@.push(ch),
;

/// The characters of `s`, in order, as an indexable vector.
pub fn chars_of(s: &str) -> (r: Vec<char>)
    ensures
        r@ == s@,
{
    let n = s.unicode_len();
    let mut r: Vec<char> = Vec::new();
    let mut i: usize = 0;
    while i < n
        invariant
            i <= n,
            n == s@.len(),
            r@ == s@.subrange(0, i as int),
        decreases n - i,
    {
        let c = s.get_char(i);
        r.push(c);
        i = i + 1;
        assert(r@ =~= s@.subrange(0, i as int));
    }
    assert(r@ =~= s@);
    r
}

/// The characters of `v`, joined back into a `String`.
pub fn string_of(v: &Vec<char>) -> (r: String)
    ensures
        r@ == v@,
{
    let mut r = String::new();
    let mut i: usize = 0;
    while i < v.len()
        invariant
            i <= v.len(),
            r@ == v@.subrange(0, i as int),
        decreases v.len() - i,
    {
        r.push(v[i]);
        i = i + 1;
        assert(r@ =~= v@.subrange(0, i as int));
    }
    assert(r@ =~= v@);
    r
}

/// A copy of `v[from..to]`.
pub fn subvec(v: &Vec<char>, from: usize, to: usize) -> (r: Vec<char>)
    requires
        from <= to <= v@.len(),
    ensures
        r@ == v@.subrange(from as int, to as int),
{
    let mut r: Vec<char> = Vec::new();
    let mut i: usize = from;
    while i < to
        invariant
            from <= i <= to <= v@.len(),
            r@ == v@.subrange(from as int, i as int),
        decreases to - i,
    {
        r.push(v[i]);
        i = i + 1;
        assert(r@ =~= v@.subrange(from as int, i as int));
    }
    r
}

/// Appends every character of `src` to `dst`.
pub fn push_all(dst: &mut Vec<char>, src: &Vec<char>)
    ensures
        final(dst)@ == old(dst)@ + src@,
{
    let mut i: usize = 0;
    while i < src.len()
        invariant
            i <= src@.len(),
            dst@ == old(dst)@ + src@.subrange(0, i as int),
        decreases src.len() - i,
    {
        dst.push(src[i]);
        i = i + 1;
        assert(dst@ =~= old(dst)@ + src@.subrange(0, i as int));
    }
    assert(dst@ =~= old(dst)@ + src@);
}

/// The pattern `pat` occurs in `text` starting at position `i`.
pub open spec fn spec_match_at(text: Seq<char>, pat: Seq<char>, i: int) -> bool {
    0 <= i && i + pat.len() <= text.len() && text.subrange(i, i + pat.len() as int) == pat
}

/// The pattern `pat` occurs somewhere in `text`.
pub open spec fn spec_contains(text: Seq<char>, pat: Seq<char>) -> bool {
    exists|i: int| spec_match_at(text, pat, i)
}

/// Whether `pat` occurs in `text` at position `i`.
pub fn match_at(text: &Vec<char>, pat: &Vec<char>, i: usize) -> (b: bool)
    requires
        i <= text@.len(),
    ensures
        b == spec_match_at(text@, pat@, i as int),
{
    let n = text.len();
    let m = pat.len();
    if m > n - i {
        assert(!spec_match_at(text@, pat@, i as int));
        return false;
    }
    let mut j: usize = 0;
    while j < m
        invariant
            j <= m,
            m == pat@.len(),
            n == text@.len(),
            i + m <= n,
            forall|k: int| 0 <= k < j ==> text@[i + k] == pat@[k],
        decreases m - j,
    {
        if text[i + j] != pat[j] {
            assert(text@.subrange(i as int, i + pat@.len() as int)[j as int] != pat@[j as int]);
            return false;
        }
        j = j + 1;
    }
    assert(text@.subrange(i as int, i + pat@.len() as int) =~= pat@);
    true
}

/// Whether `pat` occurs anywhere in `text`.
pub fn contains_chars(text: &Vec<char>, pat: &Vec<char>) -> (b: bool)
    ensures
        b == spec_contains(text@, pat@),
{
    let n = text.len();
    let m = pat.len();
    if m > n {
        assert(!spec_contains(text@, pat@)) by {
            assert(forall|i: int| !spec_match_at(text@, pat@, i));
        }
        return false;
    }
    if m == 0 {
        assert(spec_match_at(text@, pat@, 0)) by {
            assert(text@.subrange(0, 0) =~= pat@);
        }
        return true;
    }
    let mut i: usize = 0;
    while i <= n - m
        invariant
            0 < m <= n,
            n == text@.len(),
            m == pat@.len(),
            i <= n - m + 1,
            forall|k: int| 0 <= k < i ==> !spec_match_at(text@, pat@, k),
        decreases n - i,
    {
        if match_at(text, pat, i) {
            return true;
        }
        i = i + 1;
    }
    assert(forall|k: int| !spec_match_at(text@, pat@, k));
    false
}

/// Single left-to-right pass replacing every non-overlapping occurrence of
/// `pat` in `text` by `val`; replaced text is never rescanned. An empty
/// pattern leaves the text unchanged.
pub open spec fn spec_replace(text: Seq<char>, pat: Seq<char>, val: Seq<char>) -> Seq<char>
    decreases text.len(),
{
    if pat.len() == 0 || text.len() < pat.len() {
        text
    } else if text.subrange(0, pat.len() as int) == pat {
        val + spec_replace(text.skip(pat.len() as int), pat, val)
    } else {
        seq![text[0]] + spec_replace(text.skip(1), pat, val)
    }
}

proof fn lemma_replace_step_match(text: Seq<char>, pat: Seq<char>, val: Seq<char>, i: int)
    requires
        0 <= i <= text.len(),
        spec_match_at(text, pat, i),
        pat.len() > 0,
    ensures
        spec_replace(text.skip(i), pat, val) == val + spec_replace(
            text.skip(i + pat.len()),
            pat,
            val,
        ),
{
    let rest = text.skip(i);
    assert(rest.subrange(0, pat.len() as int) =~= text.subrange(i, i + pat.len() as int));
    assert(rest.skip(pat.len() as int) =~= text.skip(i + pat.len()));
}

proof fn lemma_replace_step_no_match(text: Seq<char>, pat: Seq<char>, val: Seq<char>, i: int)
    requires
        0 <= i < text.len(),
        !spec_match_at(text, pat, i),
        pat.len() > 0,
    ensures
        spec_replace(text.skip(i), pat, val) == seq![text[i]] + spec_replace(
            text.skip(i + 1),
            pat,
            val,
        ),
{
    let rest = text.skip(i);
    if rest.len() >= pat.len() {
        assert(rest.subrange(0, pat.len() as int) =~= text.subrange(i, i + pat.len() as int));
        assert(rest.subrange(0, pat.len() as int) != pat);
        assert(rest.skip(1) =~= text.skip(i + 1));
        assert(seq![rest[0]] =~= seq![text[i]]);
    } else {
        // The tail is shorter than the pattern: both sides spell the tail out
        // one character at a time.
        assert(rest.skip(1) =~= text.skip(i + 1));
        lemma_replace_short(text.skip(i + 1), pat, val);
        assert(spec_replace(rest, pat, val) == rest);
        assert(rest =~= seq![text[i]] + text.skip(i + 1));
    }
}

proof fn lemma_replace_short(text: Seq<char>, pat: Seq<char>, val: Seq<char>)
    requires
        text.len() < pat.len(),
    ensures
        spec_replace(text, pat, val) == text,
{
}

/// Replaces every occurrence of `pat` in `text` by `val`, in one pass.
pub fn replace_chars(text: &Vec<char>, pat: &Vec<char>, val: &Vec<char>) -> (r: Vec<char>)
    ensures
        r@ == spec_replace(text@, pat@, val@),
{
    let mut out: Vec<char> = Vec::new();
    if pat.len() == 0 {
        push_all(&mut out, text);
        assert(out@ =~= text@);
        return out;
    }
    let n = text.len();
    let mut i: usize = 0;
    proof {
        assert(text@.skip(0) =~= text@);
        assert(out@ + spec_replace(text@, pat@, val@) =~= spec_replace(text@, pat@, val@));
    }
    while i < n
        invariant
            i <= n,
            n == text@.len(),
            pat@.len() > 0,
            spec_replace(text@, pat@, val@) == out@ + spec_replace(text@.skip(i as int), pat@, val@),
        decreases n - i,
    {
        if match_at(text, pat, i) {
            proof {
                lemma_replace_step_match(text@, pat@, val@, i as int);
            }
            push_all(&mut out, val);
            i = i + pat.len();
            assert(spec_replace(text@, pat@, val@) =~= out@ + spec_replace(
                text@.skip(i as int),
                pat@,
                val@,
            ));
        } else {
            proof {
                lemma_replace_step_no_match(text@, pat@, val@, i as int);
            }
            out.push(text[i]);
            i = i + 1;
            assert(spec_replace(text@, pat@, val@) =~= out@ + spec_replace(
                text@.skip(i as int),
                pat@,
                val@,
            ));
        }
    }
    assert(text@.skip(i as int) =~= Seq::<char>::empty());
    assert(spec_replace(Seq::<char>::empty(), pat@, val@) == Seq::<char>::empty());
    assert(out@ + Seq::<char>::empty() =~= out@);
    out
}

/// Replaces every occurrence of `pat` in `text` by `val`.
pub fn replace_str(text: &str, pat: &str, val: &str) -> (r: String)
    ensures
        r@ == spec_replace(text@, pat@, val@),
{
    let t = chars_of(text);
    let p = chars_of(pat);
    let v = chars_of(val);
    let out = replace_chars(&t, &p, &v);
    string_of(&out)
}

/// The characters str::trim-style trimming removes here: ASCII whitespace.
pub open spec fn is_space_char(c: char) -> bool {
    c == ' ' || c == '\t' || c == '\n' || c == '\r' || c == '\u{b}' || c == '\u{c}'
}

/// The characters the token wrapper is built from.
pub open spec fn is_wrap_char(c: char) -> bool {
    c == '{' || c == '$' || c == '}'
}

/// Drops leading characters satisfying `f`.
pub open spec fn spec_trim_start_by(s: Seq<char>, f: spec_fn(char) -> bool) -> Seq<char>
    decreases s.len(),
{
    if s.len() > 0 && f(s[0]) {
        spec_trim_start_by(s.skip(1), f)
    } else {
        s
    }
}

/// Drops trailing characters satisfying `f`.
pub open spec fn spec_trim_end_by(s: Seq<char>, f: spec_fn(char) -> bool) -> Seq<char>
    decreases s.len(),
{
    if s.len() > 0 && f(s[s.len() - 1]) {
        spec_trim_end_by(s.take(s.len() - 1), f)
    } else {
        s
    }
}

/// Drops leading and trailing characters satisfying `f`.
pub open spec fn spec_trim_by(s: Seq<char>, f: spec_fn(char) -> bool) -> Seq<char> {
    spec_trim_end_by(spec_trim_start_by(s, f), f)
}

pub proof fn lemma_trim_start_by_skip(s: Seq<char>, f: spec_fn(char) -> bool, a: int)
    requires
        0 <= a <= s.len(),
        forall|j: int| 0 <= j < a ==> f(s[j]),
        a == s.len() || !f(s[a]),
    ensures
        spec_trim_start_by(s, f) == s.skip(a),
    decreases a,
{
    if a == 0 {
        assert(s.skip(0) =~= s);
    } else {
        assert(f(s[0]));
        lemma_trim_start_by_skip(s.skip(1), f, a - 1);
        assert(s.skip(1).skip(a - 1) =~= s.skip(a));
    }
}

pub proof fn lemma_trim_end_by_take(s: Seq<char>, f: spec_fn(char) -> bool, b: int)
    requires
        0 <= b <= s.len(),
        forall|j: int| b <= j < s.len() ==> f(s[j]),
        b == 0 || !f(s[b - 1]),
    ensures
        spec_trim_end_by(s, f) == s.take(b),
    decreases s.len() - b,
{
    if b == s.len() {
        assert(s.take(b) =~= s);
    } else {
        assert(f(s[s.len() - 1]));
        lemma_trim_end_by_take(s.take(s.len() - 1), f, b);
        assert(s.take(s.len() - 1).take(b) =~= s.take(b));
    }
}

/// Whether trimming treats `c` as whitespace.
pub fn is_space(c: char) -> (b: bool)
    ensures
        b == is_space_char(c),
{
    c == ' ' || c == '\t' || c == '\n' || c == '\r' || c == '\u{b}' || c == '\u{c}'
}

/// Whether `c` is one of the token wrapper characters.
pub fn is_wrap(c: char) -> (b: bool)
    ensures
        b == is_wrap_char(c),
{
    c == '{' || c == '$' || c == '}'
}

/// Trims ASCII whitespace from both ends.
pub fn trim_spaces(v: &Vec<char>) -> (r: Vec<char>)
    ensures
        r@ == spec_trim_by(v@, |c: char| is_space_char(c)),
{
    let ghost sf = |c: char| is_space_char(c);
    let n = v.len();
    let mut a: usize = 0;
    while a < n && is_space(v[a])
        invariant
            a <= n,
            n == v@.len(),
            forall|j: int| 0 <= j < a ==> is_space_char(v@[j]),
        decreases n - a,
    {
        a = a + 1;
    }
    proof {
        lemma_trim_start_by_skip(v@, sf, a as int);
    }
    let mut b: usize = n;
    while b > a && is_space(v[b - 1])
        invariant
            a <= b <= n,
            n == v@.len(),
            forall|j: int| b <= j < v@.len() ==> is_space_char(v@[j]),
        decreases b,
    {
        b = b - 1;
    }
    let ghost mid = v@.skip(a as int);
    proof {
        if b == a {
            lemma_trim_end_by_take(mid, sf, 0);
        } else {
            lemma_trim_end_by_take(mid, sf, b - a);
        }
        assert(mid.take(b - a) =~= v@.subrange(a as int, b as int));
    }
    subvec(v, a, b)
}

/// Trims the token wrapper characters `{`, `$`, `}` from both ends.
pub fn trim_wrap(v: &Vec<char>) -> (r: Vec<char>)
    ensures
        r@ == spec_trim_by(v@, |c: char| is_wrap_char(c)),
{
    let ghost sf = |c: char| is_wrap_char(c);
    let n = v.len();
    let mut a: usize = 0;
    while a < n && is_wrap(v[a])
        invariant
            a <= n,
            n == v@.len(),
            forall|j: int| 0 <= j < a ==> is_wrap_char(v@[j]),
        decreases n - a,
    {
        a = a + 1;
    }
    proof {
        lemma_trim_start_by_skip(v@, sf, a as int);
    }
    let mut b: usize = n;
    while b > a && is_wrap(v[b - 1])
        invariant
            a <= b <= n,
            n == v@.len(),
            forall|j: int| b <= j < v@.len() ==> is_wrap_char(v@[j]),
        decreases b,
    {
        b = b - 1;
    }
    let ghost mid = v@.skip(a as int);
    proof {
        if b == a {
            lemma_trim_end_by_take(mid, sf, 0);
        } else {
            lemma_trim_end_by_take(mid, sf, b - a);
        }
        assert(mid.take(b - a) =~= v@.subrange(a as int, b as int));
    }
    subvec(v, a, b)
}

/// Index of the first occurrence of `c` in `s`, or -1 if `c` is absent.
pub open spec fn spec_index_of(s: Seq<char>, c: char) -> int
    decreases s.len(),
{
    if s.len() == 0 {
        -1
    } else if s[0] == c {
        0
    } else {
        let r = spec_index_of(s.skip(1), c);
        if r < 0 {
            -1
        } else {
            r + 1
        }
    }
}

/// How many times `c` occurs in `s`.
pub open spec fn spec_count_char(s: Seq<char>, c: char) -> nat
    decreases s.len(),
{
    if s.len() == 0 {
        0
    } else {
        (if s[0] == c {
            1nat
        } else {
            0nat
        }) + spec_count_char(s.skip(1), c)
    }
}

proof fn lemma_index_of_found(s: Seq<char>, c: char, i: int)
    requires
        0 <= i < s.len(),
        s[i] == c,
        forall|j: int| 0 <= j < i ==> s[j] != c,
    ensures
        spec_index_of(s, c) == i,
    decreases i,
{
    if i > 0 {
        lemma_index_of_found(s.skip(1), c, i - 1);
    }
}

pub proof fn lemma_index_of_none(s: Seq<char>, c: char)
    requires
        spec_index_of(s, c) == -1,
    ensures
        forall|j: int| 0 <= j < s.len() ==> s[j] != c,
    decreases s.len(),
{
    if s.len() > 0 {
        lemma_index_of_none(s.skip(1), c);
        assert forall|j: int| 0 <= j < s.len() implies s[j] != c by {
            if j > 0 {
                assert(s.skip(1)[j - 1] != c);
            }
        }
    }
}

proof fn lemma_index_of_absent(s: Seq<char>, c: char)
    requires
        forall|j: int| 0 <= j < s.len() ==> s[j] != c,
    ensures
        spec_index_of(s, c) == -1,
    decreases s.len(),
{
    if s.len() > 0 {
        lemma_index_of_absent(s.skip(1), c);
    }
}

proof fn lemma_count_split(s: Seq<char>, c: char, i: int)
    requires
        0 <= i <= s.len(),
    ensures
        spec_count_char(s, c) == spec_count_char(s.take(i), c) + spec_count_char(s.skip(i), c),
    decreases i,
{
    if i == 0 {
        assert(s.take(0) =~= Seq::<char>::empty());
        assert(s.skip(0) =~= s);
    } else {
        assert(s.skip(1).take(i - 1) =~= s.take(i).skip(1));
        assert(s.skip(1).skip(i - 1) =~= s.skip(i));
        lemma_count_split(s.skip(1), c, i - 1);
        if s[0] == c {
            assert(s.take(i)[0] == c);
        } else {
            assert(s.take(i)[0] != c);
        }
    }
}

pub proof fn lemma_count_none(s: Seq<char>, c: char)
    requires
        forall|j: int| 0 <= j < s.len() ==> s[j] != c,
    ensures
        spec_count_char(s, c) == 0,
    decreases s.len(),
{
    if s.len() > 0 {
        lemma_count_none(s.skip(1), c);
    }
}

/// Index of the first occurrence of `c`, if any.
pub fn index_of(v: &Vec<char>, c: char) -> (r: Option<usize>)
    ensures
        match r {
            Option::Some(i) => spec_index_of(v@, c) == i as int && i < v@.len(),
            Option::None => spec_index_of(v@, c) == -1,
        },
{
    let mut i: usize = 0;
    while i < v.len()
        invariant
            i <= v@.len(),
            forall|j: int| 0 <= j < i ==> v@[j] != c,
        decreases v.len() - i,
    {
        if v[i] == c {
            proof {
                lemma_index_of_found(v@, c, i as int);
            }
            return Option::Some(i);
        }
        i = i + 1;
    }
    proof {
        lemma_index_of_absent(v@, c);
    }
    Option::None
}

/// How many times `c` occurs in `v`.
pub fn count_char(v: &Vec<char>, c: char) -> (r: usize)
    ensures
        r as nat == spec_count_char(v@, c),
{
    let len = v.len();
    let mut i: usize = 0;
    let mut n: usize = 0;
    proof {
        assert(v@.skip(0) =~= v@);
    }
    while i < len
        invariant
            i <= len,
            len == v@.len(),
            n <= i,
            n as nat + spec_count_char(v@.skip(i as int), c) == spec_count_char(v@, c),
        decreases len - i,
    {
        proof {
            assert(v@.skip(i as int).skip(1) =~= v@.skip(i + 1));
            assert(v@.skip(i as int)[0] == v@[i as int]);
        }
        if v[i] == c {
            n = n + 1;
        }
        i = i + 1;
    }
    assert(v@.skip(i as int) =~= Seq::<char>::empty());
    n
}

/// Two character vectors hold the same text.
pub fn eq_chars(a: &Vec<char>, b: &Vec<char>) -> (r: bool)
    ensures
        r == (a@ == b@),
{
    if a.len() != b.len() {
        assert(a@ != b@);
        return false;
    }
    let mut i: usize = 0;
    while i < a.len()
        invariant
            i <= a@.len(),
            a@.len() == b@.len(),
            forall|j: int| 0 <= j < i ==> a@[j] == b@[j],
        decreases a.len() - i,
    {
        if a[i] != b[i] {
            return false;
        }
        i = i + 1;
    }
    assert(a@ =~= b@);
    true
}

/// The directory part of `path`: everything before the last `/`, empty when
/// the path holds no separator.
pub open spec fn spec_parent(path: Seq<char>) -> Seq<char> {
    if spec_contains(path, seq!['/']) {
        path.take(spec_last_index_of(path, '/'))
    } else {
        Seq::empty()
    }
}

/// Index of the last occurrence of `c` in `s`, or -1 if `c` is absent.
pub open spec fn spec_last_index_of(s: Seq<char>, c: char) -> int
    decreases s.len(),
{
    if s.len() == 0 {
        -1
    } else if s[s.len() - 1] == c {
        s.len() - 1
    } else {
        spec_last_index_of(s.take(s.len() - 1), c)
    }
}

proof fn lemma_last_index_of_found(s: Seq<char>, c: char, i: int)
    requires
        0 <= i < s.len(),
        s[i] == c,
        forall|j: int| i < j < s.len() ==> s[j] != c,
    ensures
        spec_last_index_of(s, c) == i,
    decreases s.len(),
{
    if i < s.len() - 1 {
        lemma_last_index_of_found(s.take(s.len() - 1), c, i);
    }
}

proof fn lemma_last_index_of_absent(s: Seq<char>, c: char)
    requires
        forall|j: int| 0 <= j < s.len() ==> s[j] != c,
    ensures
        spec_last_index_of(s, c) == -1,
    decreases s.len(),
{
    if s.len() > 0 {
        lemma_last_index_of_absent(s.take(s.len() - 1), c);
    }
}

/// The directory part of `path` (everything before the last `/`).
pub fn parent_dir(path: &Vec<char>) -> (r: Vec<char>)
    ensures
        r@ == spec_parent(path@),
{
    let mut i: usize = path.len();
    while i > 0
        invariant
            i <= path@.len(),
            forall|j: int| i <= j < path@.len() ==> path@[j] != '/',
        decreases i,
    {
        if path[i - 1] == '/' {
            proof {
                lemma_last_index_of_found(path@, '/', i - 1);
                assert(spec_match_at(path@, seq!['/'], i - 1)) by {
                    assert(path@.subrange(i - 1, i as int) =~= seq!['/']);
                }
            }
            return subvec(path, 0, i - 1);
        }
        i = i - 1;
    }
    proof {
        lemma_last_index_of_absent(path@, '/');
        assert(!spec_contains(path@, seq!['/'])) by {
            assert forall|k: int| !spec_match_at(path@, seq!['/'], k) by {
                if spec_match_at(path@, seq!['/'], k) {
                    assert(path@.subrange(k, k + 1)[0] == '/');
                }
            }
        }
    }
    Vec::new()
}


/// A pattern matching nowhere leaves the text unchanged.
pub proof fn lemma_replace_none(text: Seq<char>, pat: Seq<char>, val: Seq<char>)
    requires
        pat.len() > 0,
        forall|k: int| !spec_match_at(text, pat, k),
    ensures
        spec_replace(text, pat, val) == text,
    decreases text.len(),
{
    if text.len() >= pat.len() {
        assert(!spec_match_at(text, pat, 0));
        assert(text.subrange(0, pat.len() as int) != pat);
        assert forall|k: int| !spec_match_at(text.skip(1), pat, k) by {
            if spec_match_at(text.skip(1), pat, k) {
                assert(text.subrange(k + 1, k + 1 + pat.len()) =~= text.skip(1).subrange(
                    k,
                    k + pat.len() as int,
                ));
                assert(spec_match_at(text, pat, k + 1));
            }
        }
        lemma_replace_none(text.skip(1), pat, val);
        assert(spec_replace(text, pat, val) =~= text);
    }
}

/// A pattern matching at exactly one position is replaced there and nowhere
/// else.
pub proof fn lemma_replace_single(text: Seq<char>, pat: Seq<char>, val: Seq<char>, p: int)
    requires
        pat.len() > 0,
        spec_match_at(text, pat, p),
        forall|k: int| k != p ==> !spec_match_at(text, pat, k),
    ensures
        spec_replace(text, pat, val) == text.take(p) + val + text.skip(p + pat.len()),
    decreases p,
{
    let m = pat.len() as int;
    if p == 0 {
        assert(text.subrange(0, m) == pat);
        assert forall|k: int| !spec_match_at(text.skip(m), pat, k) by {
            if spec_match_at(text.skip(m), pat, k) {
                assert(text.subrange(k + m, k + m + pat.len()) =~= text.skip(m).subrange(
                    k,
                    k + pat.len() as int,
                ));
                assert(spec_match_at(text, pat, k + m));
            }
        }
        lemma_replace_none(text.skip(m), pat, val);
        assert(text.take(0) =~= Seq::<char>::empty());
        assert(spec_replace(text, pat, val) =~= text.take(0) + val + text.skip(m));
    } else {
        assert(!spec_match_at(text, pat, 0));
        assert(text.len() >= p + m);
        assert(text.subrange(0, m) != pat);
        assert(spec_match_at(text.skip(1), pat, p - 1)) by {
            assert(text.skip(1).subrange(p - 1, p - 1 + pat.len() as int) =~= text.subrange(
                p,
                p + pat.len() as int,
            ));
        }
        assert forall|k: int| k != p - 1 implies !spec_match_at(text.skip(1), pat, k) by {
            if spec_match_at(text.skip(1), pat, k) {
                assert(text.subrange(k + 1, k + 1 + pat.len()) =~= text.skip(1).subrange(
                    k,
                    k + pat.len() as int,
                ));
                assert(spec_match_at(text, pat, k + 1));
            }
        }
        lemma_replace_single(text.skip(1), pat, val, p - 1);
        assert(text.skip(1).take(p - 1) =~= text.subrange(1, p));
        assert(text.skip(1).skip(p - 1 + m) =~= text.skip(p + m));
        assert(spec_replace(text, pat, val) =~= text.take(p) + val + text.skip(p + m));
    }
}

} // verus!
