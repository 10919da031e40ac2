//! Verified text utilities: literal substring replacement, character
//! counting, and conversions between `String` and `Vec<char>`.
//!
//! Texts are modelled as sequences of characters. The central spec function
//! is [`replace_all`], which replaces every non-overlapping occurrence of a
//! literal pattern, scanning left to right.

use vstd::prelude::*;

verus! {

/// How many times the character `c` occurs in `s`.
pub open spec fn count_char(s: Seq<char>, c: char) -> nat
    decreases s.len(),
{
    if s.len() == 0 {
        0
    } else {
        (if s[0] == c {
            1nat
        } else {
            0nat
        }) + count_char(s.skip(1), c)
    }
}

/// `text` with every non-overlapping occurrence of the literal `from`
/// replaced by `to`, scanning left to right. An empty `from` leaves the
/// text unchanged.
pub open spec fn replace_all(text: Seq<char>, from: Seq<char>, to: Seq<char>) -> Seq<char>
    decreases text.len(),
{
    if from.len() == 0 || text.len() < from.len() {
        text
    } else if text.take(from.len() as int) == from {
        to + replace_all(text.skip(from.len() as int), from, to)
    } else {
        seq![text[0]] + replace_all(text.skip(1), from, to)
    }
}

/// If the pattern occurs nowhere in the text, `replace_all` leaves the text
/// unchanged. "Occurs nowhere" is stated index-wise.
pub proof fn lemma_replace_all_no_occurrence(text: Seq<char>, from: Seq<char>, to: Seq<char>)
    requires
        forall|i: int|
            0 <= i && i + from.len() <= text.len() ==> #[trigger] text.subrange(
                i,
                i + from.len() as int,
            ) != from,
    ensures
        replace_all(text, from, to) == text,
    decreases text.len(),
{
    if from.len() == 0 || text.len() < from.len() {
    } else {
        assert(text.subrange(0, 0 + from.len() as int) != from);
        assert(text.take(from.len() as int) =~= text.subrange(0, 0 + from.len() as int));
        assert forall|i: int|
            0 <= i && i + from.len() <= text.skip(1).len() implies #[trigger] text.skip(1).subrange(
            i,
            i + from.len() as int,
        ) != from by {
            assert(text.skip(1).subrange(i, i + from.len() as int) =~= text.subrange(
                i + 1,
                (i + 1) + from.len() as int,
            ));
            assert(text.subrange(i + 1, (i + 1) + from.len() as int) != from);
        }
        lemma_replace_all_no_occurrence(text.skip(1), from, to);
        assert(replace_all(text, from, to) == seq![text[0]] + text.skip(1));
        assert(seq![text[0]] + text.skip(1) =~= text);
    }
}

/// A text that is exactly the pattern is replaced wholly: substituting a
/// placeholder into a template that consists of that placeholder alone
/// yields exactly the substituted value.
pub proof fn lemma_replace_all_exact(from: Seq<char>, to: Seq<char>)
    requires
        from.len() > 0,
    ensures
        replace_all(from, from, to) == to,
{
    assert(from.take(from.len() as int) =~= from);
    assert(from.skip(from.len() as int) =~= Seq::<char>::empty());
    assert(replace_all(Seq::<char>::empty(), from, to) == Seq::<char>::empty());
    assert(to + Seq::<char>::empty() =~= to);
}

/// Whether the characters of `from` stand at position `i` of `text`.
fn match_at(text: &Vec<char>, from: &Vec<char>, i: usize) -> (r: bool)
    requires
        i + from@.len() <= text@.len(),
    ensures
        r == (text@.subrange(i as int, i as int + from@.len() as int) == from@),
{
    let ghost sub = text@.subrange(i as int, i as int + from@.len() as int);
    let n: usize = text.len();
    let m: usize = from.len();
    let mut j: usize = 0;
    while j < m
        invariant
            n == text@.len(),
            m == from@.len(),
            i + m <= n,
            j <= m,
            sub == text@.subrange(i as int, i as int + from@.len() as int),
            forall|k: int| 0 <= k < j ==> text@[i + k] == from@[k],
        decreases m - j,
    {
        if text[i + j] != from[j] {
            assert(sub[j as int] == text@[i + j]);
            return false;
        }
        j += 1;
    }
    assert(sub =~= from@);
    true
}

/// Appends every character of `src` to `out`.
fn push_all(out: &mut Vec<char>, src: &Vec<char>)
    ensures
        final(out)@ == old(out)@ + src@,
{
    let m: usize = src.len();
    let mut j: usize = 0;
    while j < m
        invariant
            m == src@.len(),
            j <= m,
            out@ == old(out)@ + src@.take(j as int),
        decreases m - j,
    {
        out.push(src[j]);
        assert((old(out)@ + src@.take(j as int)).push(src@[j as int]) =~= old(out)@ + src@.take(
            j + 1,
        ));
        j += 1;
    }
    assert(src@.take(m as int) =~= src@);
}

/// Replaces every non-overlapping occurrence of `from` in `text` by `to`,
/// scanning left to right.
pub fn replace_all_chars(text: &Vec<char>, from: &Vec<char>, to: &Vec<char>) -> (r: Vec<char>)
    requires
        from@.len() > 0,
    ensures
        r@ == replace_all(text@, from@, to@),
{
    let n: usize = text.len();
    let mut out: Vec<char> = Vec::new();
    let mut i: usize = 0;
    assert(text@.skip(0) =~= text@);
    assert(Seq::<char>::empty() + replace_all(text@, from@, to@) =~= replace_all(
        text@,
        from@,
        to@,
    ));
    while i < n
        invariant
            n == text@.len(),
            from@.len() > 0,
            i <= n,
            replace_all(text@, from@, to@) == out@ + replace_all(text@.skip(i as int), from@, to@),
        decreases n - i,
    {
        let ghost suffix = text@.skip(i as int);
        let ghost out0 = out@;
        assert(suffix.len() == n - i);
        if n - i >= from.len() && match_at(text, from, i) {
            assert(suffix.take(from@.len() as int) =~= text@.subrange(
                i as int,
                i as int + from@.len() as int,
            ));
            assert(replace_all(suffix, from@, to@) == to@ + replace_all(
                suffix.skip(from@.len() as int),
                from@,
                to@,
            ));
            push_all(&mut out, to);
            i = i + from.len();
            assert(suffix.skip(from@.len() as int) =~= text@.skip(i as int));
            assert(out0 + (to@ + replace_all(text@.skip(i as int), from@, to@)) =~= (out0 + to@)
                + replace_all(text@.skip(i as int), from@, to@));
        } else {
            if n - i >= from.len() {
                assert(suffix.take(from@.len() as int) =~= text@.subrange(
                    i as int,
                    i as int + from@.len() as int,
                ));
                assert(replace_all(suffix, from@, to@) == seq![suffix[0]] + replace_all(
                    suffix.skip(1),
                    from@,
                    to@,
                ));
            } else {
                assert(replace_all(suffix, from@, to@) == suffix);
                assert(suffix.skip(1).len() < from@.len());
                assert(replace_all(suffix.skip(1), from@, to@) == suffix.skip(1));
                assert(suffix =~= seq![suffix[0]] + suffix.skip(1));
            }
            out.push(text[i]);
            i += 1;
            assert(suffix[0] == text@[i - 1]);
            assert(suffix.skip(1) =~= text@.skip(i as int));
            assert(out@ =~= out0 + seq![suffix[0]]);
            assert(out0 + (seq![suffix[0]] + replace_all(text@.skip(i as int), from@, to@)) =~= (
            out0 + seq![suffix[0]]) + replace_all(text@.skip(i as int), from@, to@));
        }
    }
    assert(text@.skip(n as int) =~= Seq::<char>::empty());
    assert(replace_all(Seq::<char>::empty(), from@, to@) == Seq::<char>::empty());
    assert(out@ + Seq::<char>::empty() =~= out@);
    out
}

/// The characters of `s`, in order, as a vector.
pub fn str_to_chars(s: &str) -> (r: Vec<char>)
    ensures
        r@ == s@,
{
    let n = s.unicode_len();
    let mut v: Vec<char> = Vec::new();
    let mut i: usize = 0;
    while i < n
        invariant
            n == s@.len(),
            i <= n,
            v@ == s@.take(i as int),
        decreases n - i,
    {
        let c = s.get_char(i);
        v.push(c);
        assert(s@.take(i as int).push(s@[i as int]) =~= s@.take(i + 1));
        i += 1;
    }
    assert(s@.take(n as int) =~= s@);
    v
}

/// Relies on `String::push`: appends exactly the given character to the
/// string.
#[verifier::external_body]
fn push_char(s: &mut String, c: char)
    ensures
        final(s)@ == old(s)@.push(c),
{
    s.push(c);
}

/// A string holding exactly the characters of `v`, in order.
pub fn chars_to_string(v: &Vec<char>) -> (r: String)
    ensures
        r@ == v@,
{
    let n: usize = v.len();
    let mut s = String::new();
    let mut i: usize = 0;
    while i < n
        invariant
            n == v@.len(),
            i <= n,
            s@ == v@.take(i as int),
        decreases n - i,
    {
        push_char(&mut s, v[i]);
        assert(v@.take(i as int).push(v@[i as int]) =~= v@.take(i + 1));
        i += 1;
    }
    assert(v@.take(n as int) =~= v@);
    s
}

/// The characters of `v` from position `k` on.
pub fn tail_chars(v: &Vec<char>, k: usize) -> (r: Vec<char>)
    requires
        k <= v@.len(),
    ensures
        r@ == v@.skip(k as int),
{
    let n: usize = v.len();
    let mut out: Vec<char> = Vec::new();
    let mut i: usize = k;
    while i < n
        invariant
            n == v@.len(),
            k <= i <= n,
            out@ == v@.subrange(k as int, i as int),
        decreases n - i,
    {
        out.push(v[i]);
        assert(v@.subrange(k as int, i as int).push(v@[i as int]) =~= v@.subrange(
            k as int,
            i + 1,
        ));
        i += 1;
    }
    assert(v@.subrange(k as int, n as int) =~= v@.skip(k as int));
    out
}

/// Whether two string slices hold the same characters.
pub fn str_eq(a: &str, b: &str) -> (r: bool)
    ensures
        r == (a@ == b@),
{
    let av = str_to_chars(a);
    let bv = str_to_chars(b);
    if av.len() != bv.len() {
        return false;
    }
    let m = match_at(&av, &bv, 0);
    assert(av@.subrange(0, bv@.len() as int) =~= av@);
    m
}

/// Whether `text` begins with the characters of `prefix`.
pub fn starts_with_chars(text: &Vec<char>, prefix: &Vec<char>) -> (r: bool)
    ensures
        r == (prefix@.len() <= text@.len() && text@.take(prefix@.len() as int) == prefix@),
{
    if prefix.len() > text.len() {
        return false;
    }
    let m = match_at(text, prefix, 0);
    assert(text@.subrange(0, prefix@.len() as int) == text@.take(prefix@.len() as int));
    m
}

} // verus!
