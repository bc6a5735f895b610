//! Character-level text helpers shared across the crate: conversions between
//! `String` and `Vec<char>`, line splitting, blank tests, decimal formatting
//! and placeholder substitution, each pinned to a spec-level definition.

use vstd::prelude::*;

verus! {

/// Whitespace characters recognized by blank tests and trimming: the
/// Unicode White_Space set, as `char::is_whitespace` defines it.
pub open spec fn spec_is_space(c: char) -> bool {
    ||| c == ' ' || c == '\t' || c == '\n' || c == '\r' || c == '\u{b}' || c == '\u{c}'
    ||| c == '\u{85}' || c == '\u{a0}' || c == '\u{1680}'
    ||| ('\u{2000}' <= c && c <= '\u{200a}')
    ||| c == '\u{2028}' || c == '\u{2029}' || c == '\u{202f}' || c == '\u{205f}' || c
        == '\u{3000}'
}

pub fn is_space(c: char) -> (r: bool)
    ensures
        r == spec_is_space(c),
{
    c == ' ' || c == '\t' || c == '\n' || c == '\r' || c == '\u{b}' || c == '\u{c}' || c
        == '\u{85}' || c == '\u{a0}' || c == '\u{1680}' || ('\u{2000}' <= c && c <= '\u{200a}')
        || c == '\u{2028}' || c == '\u{2029}' || c == '\u{202f}' || c == '\u{205f}' || c
        == '\u{3000}'
}

/// True when every character of `s` is whitespace (an empty `s` is blank).
pub open spec fn spec_is_blank(s: Seq<char>) -> bool {
    forall|i: int| 0 <= i < s.len() ==> spec_is_space(#[trigger] s[i])
}

pub fn chars_is_blank(v: &Vec<char>) -> (r: bool)
    ensures
        r == spec_is_blank(v@),
{
    let mut i: usize = 0;
    while i < v.len()
        invariant
            i <= v@.len(),
            forall|j: int| 0 <= j < i ==> spec_is_space(#[trigger] v@[j]),
        decreases v@.len() - i,
    {
        if !is_space(v[i]) {
            return false;
        }
        i += 1;
    }
    true
}

/// Relies on str::chars via vstd's per-index string operations: the characters
/// of `s` as a vector.
pub fn chars_of_str(s: &str) -> (r: Vec<char>)
    ensures
        r@ == s@,
{
    let n = s.unicode_len();
    let mut r: Vec<char> = Vec::new();
    let mut i: usize = 0;
    while i < n
        invariant
            n == s@.len(),
            i <= n,
            r@ == s@.subrange(0, i as int),
        decreases n - i,
    {
        let c = s.get_char(i);
        r.push(c);
        proof {
            assert(r@ =~= s@.subrange(0, i + 1 as int));
        }
        i += 1;
    }
    proof {
        assert(r@ =~= s@);
    }
    r
}

/// Relies on String::push: appends one character to `s`.
#[verifier::external_body]
pub fn push_char(s: &mut String, c: char)
    ensures
        final(s)@ == old(s)@.push(c),
{
    s.push(c);
}

/// Builds a `String` holding exactly the characters of `v`.
pub fn string_of_chars(v: &Vec<char>) -> (r: String)
    ensures
        r@ == v@,
{
    let mut r = String::new();
    let mut i: usize = 0;
    while i < v.len()
        invariant
            i <= v@.len(),
            r@ == v@.subrange(0, i as int),
        decreases v@.len() - i,
    {
        push_char(&mut r, v[i]);
        proof {
            assert(r@ =~= v@.subrange(0, i + 1 as int));
        }
        i += 1;
    }
    proof {
        assert(r@ =~= v@);
    }
    r
}

/// The segments of `s` split at every newline: one segment more than there are
/// newlines, in order, never empty as a whole.
pub open spec fn spec_split_nl(s: Seq<char>) -> Seq<Seq<char>>
    decreases s.len(),
{
    if s.len() == 0 {
        seq![Seq::<char>::empty()]
    } else if s.last() == '\n' {
        spec_split_nl(s.drop_last()).push(Seq::<char>::empty())
    } else {
        let p = spec_split_nl(s.drop_last());
        p.update(p.len() - 1, p.last().push(s.last()))
    }
}

pub proof fn lemma_split_nl_nonempty(s: Seq<char>)
    ensures
        spec_split_nl(s).len() >= 1,
    decreases s.len(),
{
    if s.len() > 0 {
        lemma_split_nl_nonempty(s.drop_last());
    }
}

/// The logical lines of `s`, as `str::lines` sees them after newline
/// normalization: the newline-split segments, without the final empty segment
/// that a trailing newline (or an empty `s`) produces.
pub open spec fn spec_lines(s: Seq<char>) -> Seq<Seq<char>> {
    if s.len() == 0 || s.last() == '\n' {
        spec_split_nl(s).drop_last()
    } else {
        spec_split_nl(s)
    }
}

/// Splits `v` at every newline character.
pub fn split_nl(v: &Vec<char>) -> (r: Vec<Vec<char>>)
    ensures
        r@.map_values(|seg: Vec<char>| seg@) == spec_split_nl(v@),
        r@.len() >= 1,
{
    let mut r: Vec<Vec<char>> = Vec::new();
    r.push(Vec::new());
    let mut i: usize = 0;
    while i < v.len()
        invariant
            i <= v@.len(),
            r@.len() >= 1,
            r@.map_values(|seg: Vec<char>| seg@) == spec_split_nl(v@.subrange(0, i as int)),
        decreases v@.len() - i,
    {
        let ghost prefix = v@.subrange(0, i as int);
        let ghost next_prefix = v@.subrange(0, i + 1 as int);
        proof {
            assert(next_prefix.drop_last() =~= prefix);
            lemma_split_nl_nonempty(prefix);
        }
        let c = v[i];
        if c == '\n' {
            r.push(Vec::new());
        } else {
            let last = r.len() - 1;
            let mut seg = r.remove(last);
            seg.push(c);
            r.push(seg);
        }
        proof {
            assert(r@.map_values(|seg: Vec<char>| seg@) =~= spec_split_nl(next_prefix));
        }
        i += 1;
    }
    proof {
        assert(v@.subrange(0, v@.len() as int) =~= v@);
    }
    r
}

/// The logical lines of `v` (see `spec_lines`).
pub fn lines_of(v: &Vec<char>) -> (r: Vec<Vec<char>>)
    ensures
        r@.map_values(|seg: Vec<char>| seg@) == spec_lines(v@),
{
    let mut r = split_nl(v);
    if v.len() == 0 || v[v.len() - 1] == '\n' {
        proof {
            assert(spec_split_nl(v@).drop_last() =~= r@.map_values(
                |seg: Vec<char>| seg@,
            ).drop_last());
        }
        let last = r.len() - 1;
        r.remove(last);
        proof {
            assert(r@.map_values(|seg: Vec<char>| seg@) =~= spec_lines(v@));
        }
    }
    r
}

/// The number of logical lines of `v`.
pub fn count_lines(v: &Vec<char>) -> (r: usize)
    ensures
        r == spec_lines(v@).len(),
{
    let lines = lines_of(v);
    lines.len()
}

/// True when `s` holds a newline.
pub open spec fn spec_has_nl(s: Seq<char>) -> bool {
    exists|i: int| 0 <= i < s.len() && s[i] == '\n'
}

pub fn has_nl(v: &Vec<char>) -> (r: bool)
    ensures
        r == spec_has_nl(v@),
{
    let mut i: usize = 0;
    while i < v.len()
        invariant
            i <= v@.len(),
            forall|j: int| 0 <= j < i ==> v@[j] != '\n',
        decreases v@.len() - i,
    {
        if v[i] == '\n' {
            return true;
        }
        i += 1;
    }
    false
}

/// The decimal digits of `n`, most significant first.
pub open spec fn spec_decimal(n: nat) -> Seq<char>
    decreases n,
{
    if n < 10 {
        seq![((48 + n) as u8) as char]
    } else {
        spec_decimal(n / 10).push(((48 + n % 10) as u8) as char)
    }
}

/// Appends the decimal digits of `n` to `out`.
pub fn push_decimal(out: &mut Vec<char>, n: u64)
    ensures
        final(out)@ == old(out)@ + spec_decimal(n as nat),
    decreases n,
{
    if n < 10 {
        let d = (48 + (n as u8)) as char;
        out.push(d);
        proof {
            assert(out@ =~= old(out)@ + spec_decimal(n as nat));
        }
    } else {
        push_decimal(out, n / 10);
        let d = (48 + ((n % 10) as u8)) as char;
        out.push(d);
        proof {
            assert(out@ =~= old(out)@ + spec_decimal(n as nat));
        }
    }
}

/// Every occurrence of `pat` in `s` replaced by `rep`, scanning left to right
/// without revisiting replaced text, as `str::replace` does. A pattern longer
/// than the rest of `s`, or an empty pattern, leaves `s` unchanged.
pub open spec fn spec_replace(s: Seq<char>, pat: Seq<char>, rep: Seq<char>) -> Seq<char>
    decreases s.len(),
{
    if pat.len() == 0 || s.len() < pat.len() {
        s
    } else if s.take(pat.len() as int) == pat {
        rep + spec_replace(s.skip(pat.len() as int), pat, rep)
    } else {
        seq![s[0]] + spec_replace(s.drop_first(), pat, rep)
    }
}

/// True when `pat` occurs in `s` starting at `at`.
pub fn matches_at(v: &Vec<char>, at: usize, pat: &Vec<char>) -> (r: bool)
    requires
        at + pat@.len() <= v@.len(),
    ensures
        r == (v@.subrange(at as int, at + pat@.len()) == pat@),
{
    let mut i: usize = 0;
    let n = v.len();
    while i < pat.len()
        invariant
            at + pat@.len() <= v@.len(),
            n == v@.len(),
            i <= pat@.len(),
            forall|j: int| 0 <= j < i ==> v@[at + j] == pat@[j],
        decreases pat@.len() - i,
    {
        assert(at + i < n);
        if v[at + i] != pat[i] {
            proof {
                assert(v@.subrange(at as int, at + pat@.len())[i as int] != pat@[i as int]);
            }
            return false;
        }
        i += 1;
    }
    proof {
        assert(v@.subrange(at as int, at + pat@.len()) =~= pat@);
    }
    true
}

/// Replaces every occurrence of `pat` in `v` by `rep` (see `spec_replace`).
pub fn replace_all(v: &Vec<char>, pat: &Vec<char>, rep: &Vec<char>) -> (r: Vec<char>)
    ensures
        r@ == spec_replace(v@, pat@, rep@),
{
    let mut out: Vec<char> = Vec::new();
    let mut i: usize = 0;
    if pat.len() == 0 {
        return v.clone();
    }
    proof {
        assert(v@.subrange(0, v@.len() as int) =~= v@);
    }
    while i < v.len()
        invariant
            pat@.len() > 0,
            i <= v@.len(),
            spec_replace(v@, pat@, rep@) == out@ + spec_replace(
                v@.subrange(i as int, v@.len() as int),
                pat@,
                rep@,
            ),
        decreases v@.len() - i,
    {
        let ghost rest = v@.subrange(i as int, v@.len() as int);
        if pat.len() <= v.len() - i && matches_at(v, i, pat) {
            proof {
                assert(rest.take(pat@.len() as int) =~= v@.subrange(i as int, i + pat@.len()));
                assert(rest.skip(pat@.len() as int) =~= v@.subrange(
                    i + pat@.len(),
                    v@.len() as int,
                ));
            }
            append_chars(&mut out, rep);
            i += pat.len();
        } else {
            proof {
                if rest.len() >= pat@.len() {
                    assert(rest.take(pat@.len() as int) =~= v@.subrange(i as int, i + pat@.len()));
                }
                assert(rest.drop_first() =~= v@.subrange(i + 1, v@.len() as int));
            }
            out.push(v[i]);
            i += 1;
        }
    }
    proof {
        assert(v@.subrange(v@.len() as int, v@.len() as int) =~= Seq::<char>::empty());
        assert(out@ =~= spec_replace(v@, pat@, rep@));
    }
    out
}

/// The characters `v[from..to]` as a fresh vector.
pub fn subrange_vec(v: &Vec<char>, from: usize, to: usize) -> (r: Vec<char>)
    requires
        from <= to <= v@.len(),
    ensures
        r@ == v@.subrange(from as int, to as int),
{
    let mut r: Vec<char> = Vec::new();
    let mut i: usize = from;
    while i < to
        invariant
            from <= i <= to <= v@.len(),
            r@ == v@.subrange(from as int, i as int),
        decreases to - i,
    {
        r.push(v[i]);
        proof {
            assert(r@ =~= v@.subrange(from as int, i + 1 as int));
        }
        i += 1;
    }
    r
}

/// `v` with `v[start..end]` replaced by `rep`.
pub fn splice_chars(v: &Vec<char>, start: usize, end: usize, rep: &Vec<char>) -> (r: Vec<char>)
    requires
        start <= end <= v@.len(),
    ensures
        r@ == v@.subrange(0, start as int) + rep@ + v@.subrange(end as int, v@.len() as int),
        r@.len() == v@.len() - (end - start) + rep@.len(),
{
    let mut r = subrange_vec(v, 0, start);
    append_chars(&mut r, rep);
    let tail = subrange_vec(v, end, v.len());
    append_chars(&mut r, &tail);
    r
}

/// Appends all characters of `src` to `out`.
pub fn append_chars(out: &mut Vec<char>, src: &Vec<char>)
    ensures
        final(out)@ == old(out)@ + src@,
{
    let mut k: usize = 0;
    while k < src.len()
        invariant
            k <= src@.len(),
            out@ == old(out)@ + src@.subrange(0, k as int),
        decreases src@.len() - k,
    {
        out.push(src[k]);
        proof {
            assert(out@ =~= old(out)@ + src@.subrange(0, k + 1 as int));
        }
        k += 1;
    }
    proof {
        assert(out@ =~= old(out)@ + src@);
    }
}

/// Character-for-character equality of two vectors.
pub fn matches_whole(a: &Vec<char>, b: &Vec<char>) -> (r: bool)
    ensures
        r == (a@ == b@),
{
    if a.len() != b.len() {
        return false;
    }
    let mut i: usize = 0;
    while i < a.len()
        invariant
            a@.len() == b@.len(),
            i <= a@.len(),
            forall|j: int| 0 <= j < i ==> a@[j] == b@[j],
        decreases a@.len() - i,
    {
        if a[i] != b[i] {
            return false;
        }
        i += 1;
    }
    proof {
        assert(a@ =~= b@);
    }
    true
}

} // verus!

