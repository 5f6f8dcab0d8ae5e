//! Searching and filling in texts: what the request files are made with.

use vstd::prelude::*;

verus! {

/// Whether `needle` stands in `haystack` at the position `at`.
pub open spec fn matches_at(haystack: Seq<char>, needle: Seq<char>, at: int) -> bool {
    0 <= at && at + needle.len() <= haystack.len() && haystack.subrange(
        at,
        at + needle.len() as int,
    ) == needle
}

/// Whether `needle` stands somewhere in `haystack`.
pub open spec fn has_substring(haystack: Seq<char>, needle: Seq<char>) -> bool {
    exists|at: int| matches_at(haystack, needle, at)
}

/// Whether `text` begins with `prefix`.
pub open spec fn has_prefix(text: Seq<char>, prefix: Seq<char>) -> bool {
    matches_at(text, prefix, 0)
}

/// `to` before each character of `text`.
pub open spec fn led_by(text: Seq<char>, to: Seq<char>) -> Seq<char>
    decreases text.len(),
{
    if text.len() == 0 {
        Seq::empty()
    } else {
        to + seq![text[0]] + led_by(text.skip(1), to)
    }
}

/// `text` with every occurrence of `from` replaced by `to`, the occurrences
/// taken from the left and not overlapping. An empty `from` occurs before
/// every character and at the end.
pub open spec fn replaced(text: Seq<char>, from: Seq<char>, to: Seq<char>) -> Seq<char>
    decreases text.len(),
{
    if from.len() == 0 {
        led_by(text, to) + to
    } else if text.len() == 0 {
        text
    } else if matches_at(text, from, 0) {
        to + replaced(text.skip(from.len() as int), from, to)
    } else {
        seq![text[0]] + replaced(text.skip(1), from, to)
    }
}

/// The characters of a text.
pub fn to_chars(text: &str) -> (r: Vec<char>)
    ensures
        r@ == text@,
{
    let mut out: Vec<char> = Vec::new();
    for c in it: text.chars()
        invariant
            it.seq() == text@,
            out@ == text@.take(it.index() as int),
    {
        out.push(c);
        assert(text@.take(it.index() + 1) =~= text@.take(it.index() as int).push(c));
    }
    assert(text@.take(text@.len() as int) =~= text@);
    out
}

/// Whether `needle` stands in `haystack` at the position `at`.
pub fn chars_match_at(haystack: &Vec<char>, needle: &Vec<char>, at: usize) -> (r: bool)
    ensures
        r == matches_at(haystack@, needle@, at as int),
{
    if needle.len() > haystack.len() || at > haystack.len() - needle.len() {
        return false;
    }
    let mut k: usize = 0;
    while k < needle.len()
        invariant
            k <= needle.len(),
            at + needle.len() <= haystack.len(),
            haystack@.subrange(at as int, at + k) == needle@.take(k as int),
        decreases needle.len() - k,
    {
        if haystack[at + k] != needle[k] {
            assert(haystack@.subrange(at as int, at + needle.len())[k as int] != needle@[k as int]);
            return false;
        }
        assert(haystack@.subrange(at as int, at + k + 1) =~= haystack@.subrange(
            at as int,
            at + k,
        ).push(haystack@[at + k]));
        assert(needle@.take(k + 1) =~= needle@.take(k as int).push(needle@[k as int]));
        k += 1;
    }
    assert(needle@.take(k as int) =~= needle@);
    true
}

/// Whether `needle` stands somewhere in `haystack`.
pub fn contains(haystack: &str, needle: &str) -> (r: bool)
    ensures
        r == has_substring(haystack@, needle@),
{
    let h = to_chars(haystack);
    let n = to_chars(needle);
    if n.len() > h.len() {
        return false;
    }
    let last = h.len() - n.len();
    let mut at: usize = 0;
    loop
        invariant
            at <= last,
            last == h.len() - n.len(),
            n.len() <= h.len(),
            h@ == haystack@,
            n@ == needle@,
            forall|j: int| 0 <= j < at ==> !matches_at(h@, n@, j),
        decreases last - at,
    {
        if chars_match_at(&h, &n, at) {
            return true;
        }
        if at == last {
            return false;
        }
        at += 1;
    }
}

/// Whether `text` begins with `prefix`.
pub fn starts_with(text: &str, prefix: &str) -> (r: bool)
    ensures
        r == has_prefix(text@, prefix@),
{
    let t = to_chars(text);
    let p = to_chars(prefix);
    chars_match_at(&t, &p, 0)
}

/// Replaces every occurrence of `from` in `text` by `to`.
pub fn replace(text: &str, from: &str, to: &str) -> (r: String)
    ensures
        r@ == replaced(text@, from@, to@),
{
    let t = to_chars(text);
    let f = to_chars(from);
    let mut out = String::new();
    let mut at: usize = 0;
    assert(t@.skip(0) =~= t@);
    if f.len() == 0 {
        while at < t.len()
            invariant
                at <= t.len(),
                t@ == text@,
                led_by(t@, to@) == out@ + led_by(t@.skip(at as int), to@),
            decreases t.len() - at,
        {
            let ghost rest = t@.skip(at as int);
            let ghost before = out@;
            assert(rest.skip(1) =~= t@.skip(at + 1));
            assert(before + (to@ + seq![rest[0]] + led_by(rest.skip(1), to@)) =~= before + to@
                + seq![rest[0]] + led_by(rest.skip(1), to@));
            out.append(to);
            out.push(t[at]);
            assert(out@ =~= before + to@ + seq![rest[0]]);
            at += 1;
        }
        out.append(to);
        assert(led_by(t@.skip(at as int), to@) =~= Seq::<char>::empty());
        return out;
    }
    while at < t.len()
        invariant
            at <= t.len(),
            t@ == text@,
            f@ == from@,
            f@.len() > 0,
            replaced(t@, f@, to@) == out@ + replaced(t@.skip(at as int), f@, to@),
        decreases t.len() - at,
    {
        let ghost rest = t@.skip(at as int);
        let ghost before = out@;
        proof {
            assert(matches_at(rest, f@, 0) == matches_at(t@, f@, at as int)) by {
                if at + f@.len() <= t@.len() {
                    assert(rest.subrange(0, f@.len() as int) =~= t@.subrange(
                        at as int,
                        at + f@.len(),
                    ));
                }
            }
        }
        if chars_match_at(&t, &f, at) {
            out.append(to);
            proof {
                assert(rest.skip(f@.len() as int) =~= t@.skip(at + f@.len()));
                assert(before + (to@ + replaced(rest.skip(f@.len() as int), f@, to@)) =~= before
                    + to@ + replaced(rest.skip(f@.len() as int), f@, to@));
            }
            at += f.len();
        } else {
            out.push(t[at]);
            proof {
                assert(rest.skip(1) =~= t@.skip(at + 1));
                assert(before + (seq![rest[0]] + replaced(rest.skip(1), f@, to@)) =~= before.push(
                    rest[0],
                ) + replaced(rest.skip(1), f@, to@));
            }
            at += 1;
        }
    }
    assert(replaced(t@.skip(at as int), f@, to@) =~= Seq::<char>::empty());
    out
}

} // verus!
