//! Character-sequence utilities.
//!
//! All text handling in this crate works over `Seq<char>` (the view of
//! `&str` and `String`).  This module provides the verified building
//! blocks: conversion between strings and character vectors, substring
//! search, prefix/suffix tests, whitespace trimming, line splitting and
//! joining.

use vstd::prelude::*;

verus! {

use vstd::string::StrSliceExecFns;

/// Convert a string slice into the vector of its characters.
pub fn str_to_chars(s: &str) -> (v: Vec<char>)
    ensures
        v@ == s@,
{
    let n = s.unicode_len();
    let mut v: Vec<char> = Vec::new();
    let mut i: usize = 0;
    while i < n
        invariant
            i <= n,
            n == s@.len(),
            v@ == s@.subrange(0, i as int),
        decreases n - i,
    {
        v.push(s.get_char(i));
        i += 1;
        proof {
            assert(v@ =~= s@.subrange(0, i as int));
        }
    }
    proof {
        assert(v@ =~= s@);
    }
    v
}

/// Relies on `String: FromIterator<char>`: collecting characters builds
/// the string holding exactly those characters in order.
#[verifier::external_body]
pub fn chars_to_string(v: &Vec<char>) -> (r: String)
    ensures
        r@ == v@,
{
    v.iter().collect()
}

/// Append the characters of `s` to `dst`.
pub fn push_str_chars(dst: &mut Vec<char>, s: &str)
    ensures
        final(dst)@ == old(dst)@ + s@,
{
    let n = s.unicode_len();
    let mut i: usize = 0;
    while i < n
        invariant
            i <= n,
            n == s@.len(),
            dst@ == old(dst)@ + s@.subrange(0, i as int),
        decreases n - i,
    {
        dst.push(s.get_char(i));
        i += 1;
        proof {
            assert(dst@ =~= old(dst)@ + s@.subrange(0, i as int));
        }
    }
    proof {
        assert(old(dst)@ + s@.subrange(0, n as int) =~= old(dst)@ + s@);
    }
}

/// Append the characters of `src` to `dst`.
pub fn push_vec_chars(dst: &mut Vec<char>, src: &Vec<char>)
    ensures
        final(dst)@ == old(dst)@ + src@,
{
    let mut i: usize = 0;
    while i < src.len()
        invariant
            i <= src@.len(),
            dst@ == old(dst)@ + src@.subrange(0, i as int),
        decreases src@.len() - i,
    {
        dst.push(src[i]);
        i += 1;
        proof {
            assert(dst@ =~= old(dst)@ + src@.subrange(0, i as int));
        }
    }
    proof {
        assert(old(dst)@ + src@.subrange(0, src@.len() as int) =~= old(dst)@ + src@);
    }
}

/// The pattern `pat` occurs in `s` starting at position `i`.
pub open spec fn match_at(s: Seq<char>, pat: Seq<char>, i: int) -> bool {
    0 <= i && i + pat.len() <= s.len() && s.subrange(i, i + pat.len()) == pat
}

/// Position of the first occurrence of `pat` in `s` at or after `from`.
pub open spec fn find_from(s: Seq<char>, pat: Seq<char>, from: int) -> Option<int>
    decreases s.len() - from,
    via find_from_decreases
{
    if from < 0 || from + pat.len() > s.len() {
        None
    } else if match_at(s, pat, from) {
        Some(from)
    } else {
        find_from(s, pat, from + 1)
    }
}

#[via_fn]
proof fn find_from_decreases(s: Seq<char>, pat: Seq<char>, from: int) {
    if !(from < 0 || from + pat.len() > s.len()) && !match_at(s, pat, from) {
        if pat.len() == 0 {
            assert(s.subrange(from, from) =~= pat);
        }
    }
}

/// The pattern `pat` occurs somewhere in `s`.
pub open spec fn contains_seq(s: Seq<char>, pat: Seq<char>) -> bool {
    find_from(s, pat, 0) is Some
}

/// A found position is a real match, and nothing earlier matches.
pub proof fn lemma_find_from_props(s: Seq<char>, pat: Seq<char>, from: int)
    requires
        0 <= from,
    ensures
        find_from(s, pat, from) matches Some(i) ==> from <= i && match_at(s, pat, i),
        find_from(s, pat, from) matches Some(i) ==> forall|j: int|
            from <= j < i ==> !match_at(s, pat, j),
        find_from(s, pat, from) is None ==> forall|j: int| from <= j ==> !match_at(s, pat, j),
    decreases s.len() - from,
{
    if from + pat.len() > s.len() {
        assert forall|j: int| from <= j implies !match_at(s, pat, j) by {}
    } else if match_at(s, pat, from) {
    } else {
        assert(pat.len() > 0) by {
            if pat.len() == 0 {
                assert(s.subrange(from, from) =~= pat);
            }
        }
        lemma_find_from_props(s, pat, from + 1);
    }
}

/// `contains_seq` holds exactly when some position matches.
pub proof fn lemma_contains_iff_exists(s: Seq<char>, pat: Seq<char>)
    ensures
        contains_seq(s, pat) <==> exists|i: int| match_at(s, pat, i),
{
    lemma_find_from_props(s, pat, 0);
    if contains_seq(s, pat) {
        let i = find_from(s, pat, 0)->0;
        assert(match_at(s, pat, i));
    }
}

/// Whether `pat` matches `hay` at position `i` (all positions checked are in range).
fn is_match_at(hay: &Vec<char>, pat: &Vec<char>, i: usize) -> (r: bool)
    requires
        i + pat@.len() <= hay@.len(),
    ensures
        r == match_at(hay@, pat@, i as int),
{
    let mut k: usize = 0;
    while k < pat.len()
        invariant
            k <= pat@.len(),
            i + pat@.len() <= hay@.len(),
            forall|m: int| 0 <= m < k ==> hay@[i + m] == pat@[m],
        decreases pat@.len() - k,
    {
        proof {
            assert(hay.len() == hay@.len());
            assert(i + k < hay@.len());
        }
        if hay[i + k] != pat[k] {
            proof {
                assert(hay@.subrange(i as int, i + pat@.len())[k as int] == hay@[i + k]);
            }
            return false;
        }
        k += 1;
    }
    proof {
        assert(hay@.subrange(i as int, i + pat@.len()) =~= pat@);
    }
    true
}

/// Find the first occurrence of `pat` in `hay` at or after `from`.
pub fn find_subseq(hay: &Vec<char>, pat: &Vec<char>, from: usize) -> (r: Option<usize>)
    ensures
        match r {
            Some(i) => find_from(hay@, pat@, from as int) == Some(i as int),
            None => find_from(hay@, pat@, from as int) is None,
        },
{
    if pat.len() > hay.len() || from > hay.len() - pat.len() {
        proof {
            lemma_find_from_props(hay@, pat@, from as int);
        }
        return None;
    }
    if pat.len() == 0 {
        proof {
            assert(hay@.subrange(from as int, from as int) =~= pat@);
        }
        return Some(from);
    }
    let last = hay.len() - pat.len();
    let mut i: usize = from;
    while i <= last
        invariant
            from <= i,
            i <= last + 1,
            last == hay.len() - pat@.len(),
            0 < pat@.len() <= hay@.len(),
            find_from(hay@, pat@, from as int) == find_from(hay@, pat@, i as int),
        decreases last + 1 - i,
    {
        if is_match_at(hay, pat, i) {
            return Some(i);
        }
        i += 1;
    }
    None
}

/// Whether `pat` occurs anywhere in `hay`.
pub fn contains_chars(hay: &Vec<char>, pat: &Vec<char>) -> (r: bool)
    ensures
        r == contains_seq(hay@, pat@),
{
    match find_subseq(hay, pat, 0) {
        Some(_) => true,
        None => false,
    }
}

/// If `k` matches and nothing before it does, the first match is at `k`.
pub proof fn lemma_find_from_unique(s: Seq<char>, pat: Seq<char>, from: int, k: int)
    requires
        0 <= from <= k,
        match_at(s, pat, k),
        forall|j: int| from <= j < k ==> !match_at(s, pat, j),
    ensures
        find_from(s, pat, from) == Some(k),
{
    lemma_find_from_props(s, pat, from);
    if find_from(s, pat, from) is None {
        assert(!match_at(s, pat, k));
    } else {
        let m = find_from(s, pat, from)->0;
        if m < k {
            assert(!match_at(s, pat, m));
        }
        if m > k {
            assert(!match_at(s, pat, k));
        }
    }
}

/// Whether `v` begins with `p`.
pub fn starts_with_chars(v: &Vec<char>, p: &Vec<char>) -> (r: bool)
    ensures
        r == match_at(v@, p@, 0),
{
    if p.len() > v.len() {
        return false;
    }
    is_match_at(v, p, 0)
}

/// Whether `v` ends with `p`.
pub fn ends_with_chars(v: &Vec<char>, p: &Vec<char>) -> (r: bool)
    ensures
        r == match_at(v@, p@, v@.len() - p@.len()),
{
    if p.len() > v.len() {
        return false;
    }
    is_match_at(v, p, v.len() - p.len())
}

/// Copy of `v[from..to]`.
pub fn subrange_chars(v: &Vec<char>, from: usize, to: usize) -> (r: Vec<char>)
    requires
        from <= to <= v@.len(),
    ensures
        r@ == v@.subrange(from as int, to as int),
{
    let mut r: Vec<char> = Vec::new();
    let mut i: usize = from;
    while i < to
        invariant
            from <= i <= to <= v@.len(),
            r@ == v@.subrange(from as int, i as int),
        decreases to - i,
    {
        r.push(v[i]);
        i += 1;
        proof {
            assert(r@ =~= v@.subrange(from as int, i as int));
        }
    }
    r
}

/// Unicode whitespace, as `char::is_whitespace` recognizes it.
pub open spec fn is_space(c: char) -> bool {
    let u = c as u32;
    u == 0x09 || u == 0x0A || u == 0x0B || u == 0x0C || u == 0x0D || u == 0x20 || u == 0x85
        || u == 0xA0 || u == 0x1680 || (0x2000 <= u && u <= 0x200A) || u == 0x2028 || u == 0x2029
        || u == 0x202F || u == 0x205F || u == 0x3000
}

/// Executable test for [`is_space`].
pub fn is_space_char(c: char) -> (r: bool)
    ensures
        r == is_space(c),
{
    let u = c as u32;
    u == 0x09 || u == 0x0A || u == 0x0B || u == 0x0C || u == 0x0D || u == 0x20 || u == 0x85
        || u == 0xA0 || u == 0x1680 || (0x2000 <= u && u <= 0x200A) || u == 0x2028 || u == 0x2029
        || u == 0x202F || u == 0x205F || u == 0x3000
}

/// `s` without its leading whitespace.
pub open spec fn trim_start_spec(s: Seq<char>) -> Seq<char>
    decreases s.len(),
{
    if s.len() > 0 && is_space(s[0]) {
        trim_start_spec(s.drop_first())
    } else {
        s
    }
}

/// `s` without its trailing whitespace.
pub open spec fn trim_end_spec(s: Seq<char>) -> Seq<char>
    decreases s.len(),
{
    if s.len() > 0 && is_space(s.last()) {
        trim_end_spec(s.drop_last())
    } else {
        s
    }
}

/// `s` without leading and trailing whitespace.
pub open spec fn trim_spec(s: Seq<char>) -> Seq<char> {
    trim_end_spec(trim_start_spec(s))
}

pub proof fn lemma_trim_start_index(s: Seq<char>, a: int)
    requires
        0 <= a <= s.len(),
        forall|j: int| 0 <= j < a ==> is_space(s[j]),
        a == s.len() || !is_space(s[a]),
    ensures
        trim_start_spec(s) == s.subrange(a, s.len() as int),
    decreases a,
{
    if a == 0 {
        if s.len() > 0 && is_space(s[0]) {
            assert(false);
        }
        assert(s.subrange(0, s.len() as int) =~= s);
    } else {
        assert(is_space(s[0]));
        lemma_trim_start_index(s.drop_first(), a - 1);
        assert(s.drop_first().subrange(a - 1, s.drop_first().len() as int) =~= s.subrange(
            a,
            s.len() as int,
        ));
    }
}

pub proof fn lemma_trim_end_index(s: Seq<char>, b: int)
    requires
        0 <= b <= s.len(),
        forall|j: int| b <= j < s.len() ==> is_space(s[j]),
        b == 0 || !is_space(s[b - 1]),
    ensures
        trim_end_spec(s) == s.subrange(0, b),
    decreases s.len(),
{
    if b == s.len() {
        if s.len() > 0 && is_space(s.last()) {
            assert(false);
        }
        assert(s.subrange(0, s.len() as int) =~= s);
    } else {
        assert(is_space(s.last()));
        lemma_trim_end_index(s.drop_last(), b);
        assert(s.drop_last().subrange(0, b) =~= s.subrange(0, b));
    }
}

/// `v` without leading and trailing whitespace.
pub fn trim_chars(v: &Vec<char>) -> (r: Vec<char>)
    ensures
        r@ == trim_spec(v@),
{
    let mut a: usize = 0;
    while a < v.len() && is_space_char(v[a])
        invariant
            0 <= a <= v@.len(),
            forall|j: int| 0 <= j < a ==> is_space(v@[j]),
        decreases v@.len() - a,
    {
        a += 1;
    }
    let mut b: usize = v.len();
    while b > a && is_space_char(v[b - 1])
        invariant
            a <= b <= v@.len(),
            forall|j: int| b <= j < v@.len() ==> is_space(v@[j]),
        decreases b,
    {
        b -= 1;
    }
    proof {
        lemma_trim_start_index(v@, a as int);
        let t = v@.subrange(a as int, v@.len() as int);
        if b == a {
            lemma_trim_end_index(t, 0);
        } else {
            lemma_trim_end_index(t, b - a);
        }
        assert(t.subrange(0, b - a) =~= v@.subrange(a as int, b as int));
    }
    subrange_chars(v, a, b)
}

/// A line with one trailing carriage return removed.
pub open spec fn strip_last_cr(t: Seq<char>) -> Seq<char> {
    if t.len() > 0 && t.last() == '\r' {
        t.drop_last()
    } else {
        t
    }
}

/// The lines of `s`: split at newlines, each line stripped of one
/// trailing carriage return, a final newline producing no extra line.
pub open spec fn lines_spec(s: Seq<char>) -> Seq<Seq<char>>
    decreases s.len(),
    via lines_spec_decreases
{
    if s.len() == 0 {
        Seq::empty()
    } else {
        match find_from(s, seq!['\n'], 0) {
            Some(i) => seq![strip_last_cr(s.subrange(0, i))] + lines_spec(
                s.subrange(i + 1, s.len() as int),
            ),
            None => seq![s],
        }
    }
}

#[via_fn]
proof fn lines_spec_decreases(s: Seq<char>) {
    if s.len() > 0 {
        lemma_find_from_props(s, seq!['\n'], 0);
    }
}

/// Split `v` into its lines.
pub fn split_lines(v: &Vec<char>) -> (r: Vec<Vec<char>>)
    ensures
        r.deep_view() == lines_spec(v@),
{
    let mut lines: Vec<Vec<char>> = Vec::new();
    let mut cur: Vec<char> = Vec::new();
    let mut start: usize = 0;
    let mut i: usize = 0;
    proof {
        assert(lines.deep_view() =~~= Seq::<Seq<char>>::empty());
        assert(v@.subrange(0, v@.len() as int) =~= v@);
        assert(Seq::<Seq<char>>::empty() + lines_spec(v@) =~= lines_spec(v@));
    }
    while i < v.len()
        invariant
            start <= i <= v@.len(),
            cur@ == v@.subrange(start as int, i as int),
            forall|j: int| start <= j < i ==> v@[j] != '\n',
            lines_spec(v@) == lines.deep_view() + lines_spec(
                v@.subrange(start as int, v@.len() as int),
            ),
        decreases v@.len() - i,
    {
        let c = v[i];
        if c == '\n' {
            proof {
                let tail = v@.subrange(start as int, v@.len() as int);
                assert(tail.len() > 0);
                assert forall|j: int| 0 <= j < i - start implies !match_at(
                    tail,
                    seq!['\n'],
                    j,
                ) by {
                    assert(tail[j] == v@[start + j]);
                    if match_at(tail, seq!['\n'], j) {
                        assert(tail.subrange(j, j + 1)[0] == tail[j]);
                    }
                }
                assert(tail.subrange(i - start, i - start + 1) =~= seq!['\n']);
                lemma_find_from_unique(tail, seq!['\n'], 0, i - start);
                assert(tail.subrange(0, i - start) =~= cur@);
                assert(tail.subrange(i - start + 1, tail.len() as int) =~= v@.subrange(
                    i + 1,
                    v@.len() as int,
                ));
            }
            let ghost prev_cur = cur@;
            let mut line = cur;
            if line.len() > 0 && line[line.len() - 1] == '\r' {
                line.pop();
            }
            proof {
                assert(line@ == strip_last_cr(prev_cur));
            }
            let ghost old_dv = lines.deep_view();
            lines.push(line);
            proof {
                assert(lines.deep_view() =~~= old_dv.push(strip_last_cr(prev_cur)));
                assert(old_dv.push(strip_last_cr(prev_cur)) + lines_spec(
                    v@.subrange(i + 1, v@.len() as int),
                ) =~= old_dv + (seq![strip_last_cr(prev_cur)] + lines_spec(
                    v@.subrange(i + 1, v@.len() as int),
                )));
            }
            cur = Vec::new();
            start = i + 1;
        } else {
            cur.push(c);
            proof {
                assert(cur@ =~= v@.subrange(start as int, i + 1));
            }
        }
        i += 1;
    }
    proof {
        let tail = v@.subrange(start as int, v@.len() as int);
        if tail.len() > 0 {
            assert forall|j: int| 0 <= j implies !match_at(tail, seq!['\n'], j) by {
                if match_at(tail, seq!['\n'], j) {
                    assert(tail.subrange(j, j + 1)[0] == tail[j]);
                    assert(tail[j] == v@[start + j]);
                }
            }
            lemma_find_from_props(tail, seq!['\n'], 0);
            if find_from(tail, seq!['\n'], 0) is Some {
                let m = find_from(tail, seq!['\n'], 0)->0;
                assert(!match_at(tail, seq!['\n'], m));
            }
        }
    }
    if cur.len() > 0 {
        let ghost old_dv = lines.deep_view();
        let ghost tail = v@.subrange(start as int, v@.len() as int);
        lines.push(cur);
        proof {
            assert(lines.deep_view() =~~= old_dv + seq![tail]);
        }
    } else {
        proof {
            assert(v@.subrange(start as int, v@.len() as int) =~= Seq::<char>::empty());
            assert(lines.deep_view() + lines_spec(Seq::<char>::empty()) =~= lines.deep_view());
        }
    }
    lines
}

/// Whether two character vectors hold the same text.
pub fn eq_chars(a: &Vec<char>, b: &Vec<char>) -> (r: bool)
    ensures
        r == (a@ == b@),
{
    if a.len() != b.len() {
        return false;
    }
    let mut i: usize = 0;
    while i < a.len()
        invariant
            i <= a@.len(),
            a@.len() == b@.len(),
            forall|j: int| 0 <= j < i ==> a@[j] == b@[j],
        decreases a@.len() - i,
    {
        if a[i] != b[i] {
            return false;
        }
        i += 1;
    }
    proof {
        assert(a@ =~= b@);
    }
    true
}

/// The decimal digit character for `n` (0 to 9).
pub open spec fn digit_char_spec(n: int) -> char {
    if n == 0 {
        '0'
    } else if n == 1 {
        '1'
    } else if n == 2 {
        '2'
    } else if n == 3 {
        '3'
    } else if n == 4 {
        '4'
    } else if n == 5 {
        '5'
    } else if n == 6 {
        '6'
    } else if n == 7 {
        '7'
    } else if n == 8 {
        '8'
    } else {
        '9'
    }
}

/// The decimal rendering of `n`, most significant digit first.
pub open spec fn dec_spec(n: nat) -> Seq<char>
    decreases n,
{
    if n < 10 {
        seq![digit_char_spec(n as int)]
    } else {
        dec_spec(n / 10) + seq![digit_char_spec((n % 10) as int)]
    }
}

/// Render `n` in decimal.
pub fn dec_chars(n: usize) -> (r: Vec<char>)
    ensures
        r@ == dec_spec(n as nat),
    decreases n,
{
    let d = n % 10;
    let c: char = if d == 0 {
        '0'
    } else if d == 1 {
        '1'
    } else if d == 2 {
        '2'
    } else if d == 3 {
        '3'
    } else if d == 4 {
        '4'
    } else if d == 5 {
        '5'
    } else if d == 6 {
        '6'
    } else if d == 7 {
        '7'
    } else if d == 8 {
        '8'
    } else {
        '9'
    };
    if n < 10 {
        let mut r: Vec<char> = Vec::new();
        r.push(c);
        proof {
            assert(r@ =~= seq![digit_char_spec(n as int)]);
        }
        r
    } else {
        let mut r = dec_chars(n / 10);
        r.push(c);
        proof {
            assert(r@ =~= dec_spec((n / 10) as nat) + seq![digit_char_spec((n % 10) as int)]);
        }
        r
    }
}

/// The elements of `parts` joined with `sep` between them.
pub open spec fn join_spec(parts: Seq<Seq<char>>, sep: Seq<char>) -> Seq<char>
    decreases parts.len(),
{
    if parts.len() == 0 {
        Seq::empty()
    } else if parts.len() == 1 {
        parts[0]
    } else {
        parts[0] + sep + join_spec(parts.drop_first(), sep)
    }
}

/// Appending one more part extends the join by the separator and the part.
pub proof fn lemma_join_push(parts: Seq<Seq<char>>, sep: Seq<char>, x: Seq<char>)
    requires
        parts.len() >= 1,
    ensures
        join_spec(parts.push(x), sep) == join_spec(parts, sep) + sep + x,
    decreases parts.len(),
{
    if parts.len() == 1 {
        assert(parts.push(x).drop_first() =~= seq![x]);
        assert(parts.push(x)[0] == parts[0]);
        assert(join_spec(seq![x], sep) == x);
        assert(join_spec(parts.push(x), sep) == parts[0] + sep + x);
    } else {
        lemma_join_push(parts.drop_first(), sep, x);
        assert(parts.push(x).drop_first() =~= parts.drop_first().push(x));
        assert((parts[0] + sep + (join_spec(parts.drop_first(), sep) + sep + x)) =~= (parts[0]
            + sep + join_spec(parts.drop_first(), sep)) + sep + x);
    }
}

/// Join `parts` with `sep`.
pub fn join_chars(parts: &Vec<Vec<char>>, sep: &Vec<char>) -> (r: Vec<char>)
    ensures
        r@ == join_spec(parts.deep_view(), sep@),
{
    let mut r: Vec<char> = Vec::new();
    let mut i: usize = 0;
    while i < parts.len()
        invariant
            i <= parts@.len(),
            parts.deep_view().len() == parts@.len(),
            r@ == join_spec(parts.deep_view().take(i as int), sep@),
        decreases parts@.len() - i,
    {
        if i > 0 {
            let mut k: usize = 0;
            while k < sep.len()
                invariant
                    k <= sep@.len(),
                    r@ == join_spec(parts.deep_view().take(i as int), sep@) + sep@.subrange(
                        0,
                        k as int,
                    ),
                decreases sep@.len() - k,
            {
                r.push(sep[k]);
                k += 1;
                proof {
                    assert(r@ =~= join_spec(parts.deep_view().take(i as int), sep@) + sep@.subrange(
                        0,
                        k as int,
                    ));
                }
            }
            proof {
                assert(sep@.subrange(0, sep@.len() as int) =~= sep@);
            }
        }
        let part = &parts[i];
        let mut k: usize = 0;
        proof {
            assert(part@ == parts.deep_view()[i as int]);
        }
        while k < part.len()
            invariant
                k <= part@.len(),
                i < parts@.len(),
                part@ == parts.deep_view()[i as int],
                r@ == if i == 0 {
                    part@.subrange(0, k as int)
                } else {
                    join_spec(parts.deep_view().take(i as int), sep@) + sep@ + part@.subrange(
                        0,
                        k as int,
                    )
                },
            decreases part@.len() - k,
        {
            r.push(part[k]);
            k += 1;
            proof {
                if i == 0 {
                    assert(r@ =~= part@.subrange(0, k as int));
                } else {
                    assert(r@ =~= join_spec(parts.deep_view().take(i as int), sep@) + sep@
                        + part@.subrange(0, k as int));
                }
            }
        }
        proof {
            let dv = parts.deep_view();
            assert(part@.subrange(0, part@.len() as int) =~= dv[i as int]);
            assert(dv.take(i + 1) =~= dv.take(i as int).push(dv[i as int]));
            if i == 0 {
                assert(dv.take(1) =~= seq![dv[0]]);
                assert(join_spec(dv.take(1), sep@) == dv[0]);
            } else {
                lemma_join_push(dv.take(i as int), sep@, dv[i as int]);
            }
        }
        i += 1;
    }
    proof {
        assert(parts.deep_view().take(parts@.len() as int) =~= parts.deep_view());
    }
    r
}

} // verus!
