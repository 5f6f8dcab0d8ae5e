//! Character and string helpers shared by the declaration writers.

use vstd::prelude::*;
use vstd::utf8::encode_utf8;

verus! {

/// `String::push` appends the one character to the end of the string.
pub assume_specification[ String::push ](s: &mut String, c: char)
    ensures
        final(s)@ == old(s)@.push(c),
;

/// `str`'s `eq`: two string slices are equal exactly when they hold the same
/// characters.
pub assume_specification[ <str as PartialEq>::eq ](a: &str, b: &str) -> (r: bool)
    ensures
        r == (a@ == b@),
;

/// Whether two string slices hold the same characters.
pub fn same_text(a: &str, b: &str) -> (r: bool)
    ensures
        r == (a@ == b@),
{
    a.eq(b)
}

/// The bytes of a string in UTF-8.
pub fn string_to_u8_slice(input: &String) -> (r: &[u8])
    ensures
        r@ == encode_utf8(input@),
{
    input.as_str().as_bytes()
}

/// Whether `c` is an ASCII letter or digit.
pub open spec fn is_legal_char(c: char) -> bool {
    ('0' <= c <= '9') || ('a' <= c <= 'z') || ('A' <= c <= 'Z')
}

/// The characters of `s` that are ASCII letters or digits, in their order.
pub open spec fn legal_name(s: Seq<char>) -> Seq<char> {
    s.filter(|c: char| is_legal_char(c))
}

/// Whether `c` is an ASCII letter or digit.
pub fn is_legal(c: char) -> (r: bool)
    ensures
        r == is_legal_char(c),
{
    ('0' <= c && c <= '9') || ('a' <= c && c <= 'z') || ('A' <= c && c <= 'Z')
}

/// Removes every character that is not an ASCII letter or digit.
pub fn get_legal_name(raw_name: &str) -> (r: String)
    ensures
        r@ == legal_name(raw_name@),
{
    let mut out = String::new();
    proof {
        reveal(Seq::filter);
    }
    for c in it: raw_name.chars()
        invariant
            it.seq() == raw_name@,
            out@ == legal_name(raw_name@.take(it.index() as int)),
    {
        proof {
            let i = it.index() as int;
            assert(raw_name@.take(i + 1) =~= raw_name@.take(i).push(c));
            raw_name@.take(i).lemma_filter_push(c, |c: char| is_legal_char(c));
        }
        if is_legal(c) {
            out.push(c);
        }
    }
    proof {
        assert(raw_name@.take(raw_name@.len() as int) =~= raw_name@);
    }
    out
}

/// The characters of `s` without its line feeds.
pub open spec fn legal_desc(s: Seq<char>) -> Seq<char> {
    s.filter(|c: char| c != '\n')
}

/// Removes every line feed.
pub fn get_legal_desc(raw_desc: &str) -> (r: String)
    ensures
        r@ == legal_desc(raw_desc@),
{
    let mut out = String::new();
    proof {
        reveal(Seq::filter);
    }
    for c in it: raw_desc.chars()
        invariant
            it.seq() == raw_desc@,
            out@ == legal_desc(raw_desc@.take(it.index() as int)),
    {
        proof {
            let i = it.index() as int;
            assert(raw_desc@.take(i + 1) =~= raw_desc@.take(i).push(c));
            raw_desc@.take(i).lemma_filter_push(c, |c: char| c != '\n');
        }
        if c != '\n' {
            out.push(c);
        }
    }
    proof {
        assert(raw_desc@.take(raw_desc@.len() as int) =~= raw_desc@);
    }
    out
}

/// Names the characters that `char::to_uppercase` yields for `c`.
pub uninterp spec fn uppercase_of(c: char) -> Seq<char>;

/// `char::to_uppercase`, its characters collected: the result is the uppercase
/// mapping of `c`, which is a function of `c` alone.
#[verifier::external_body]
fn to_uppercase(c: char) -> (r: String)
    ensures
        r@ == uppercase_of(c),
{
    c.to_uppercase().collect()
}

/// The uppercase form of one character: for an ASCII character its ASCII
/// uppercase, for any other what `char::to_uppercase` yields.
pub open spec fn upper(c: char) -> Seq<char> {
    if 'a' <= c <= 'z' {
        seq![((c as u8) - 32) as char]
    } else if c <= '\u{7f}' {
        seq![c]
    } else {
        uppercase_of(c)
    }
}

/// `s` with its first character in uppercase.
pub open spec fn capitalized(s: Seq<char>) -> Seq<char> {
    if s.len() == 0 {
        s
    } else {
        upper(s[0]) + s.skip(1)
    }
}

/// Puts the first character in uppercase and leaves the rest as it is.
pub fn capitalize_first_letter(s: &str) -> (r: String)
    ensures
        r@ == capitalized(s@),
{
    let mut out = String::new();
    let n = s.unicode_len();
    if n == 0 {
        return out;
    }
    let first = s.get_char(0);
    if 'a' <= first && first <= 'z' {
        out.push(((first as u8) - 32) as char);
    } else if first <= '\u{7f}' {
        out.push(first);
    } else {
        out = to_uppercase(first);
    }
    out.append(s.substring_char(1, n));
    proof {
        assert(s@.subrange(1, n as int) =~= s@.skip(1));
    }
    out
}

/// The name of the declaration for the field `key` of the interface
/// `interface_name`: both without their illegal characters, the second
/// capitalized.
pub open spec fn ts_interface_name(interface_name: Seq<char>, key: Seq<char>) -> Seq<char> {
    legal_name(interface_name) + capitalized(legal_name(key))
}

/// Whether every character of `s` is an ASCII letter or digit.
pub open spec fn all_legal(s: Seq<char>) -> bool {
    forall|i: int| 0 <= i < s.len() ==> is_legal_char(#[trigger] s[i])
}

/// A name without its illegal characters holds legal characters only.
pub proof fn lemma_legal_name_is_legal(s: Seq<char>)
    ensures
        all_legal(legal_name(s)),
{
    assert forall|i: int| 0 <= i < legal_name(s).len() implies is_legal_char(
        #[trigger] legal_name(s)[i],
    ) by {
        s.lemma_filter_pred(|c: char| is_legal_char(c), i);
    }
}

/// Capitalizing keeps a legal name legal.
pub proof fn lemma_capitalized_is_legal(s: Seq<char>)
    requires
        all_legal(s),
    ensures
        all_legal(capitalized(s)),
{
    if s.len() > 0 {
        let c = s[0];
        assert(is_legal_char(c));
        assert(upper(c).len() == 1 && is_legal_char(upper(c)[0])) by {
            if 'a' <= c <= 'z' {
                let u = ((c as u8) - 32) as char;
                assert('A' <= u <= 'Z');
            }
        }
        assert forall|i: int| 0 <= i < capitalized(s).len() implies is_legal_char(
            #[trigger] capitalized(s)[i],
        ) by {
            if i > 0 {
                assert(capitalized(s)[i] == s[i]);
            }
        }
    }
}

/// The name of a declaration holds ASCII letters and digits only: no brace,
/// no bracket, no blank.
pub proof fn lemma_interface_name_is_legal(interface_name: Seq<char>, key: Seq<char>)
    ensures
        all_legal(ts_interface_name(interface_name, key)),
{
    lemma_legal_name_is_legal(interface_name);
    lemma_legal_name_is_legal(key);
    lemma_capitalized_is_legal(legal_name(key));
}

/// A name that holds legal characters only loses none of them.
pub proof fn lemma_legal_name_keeps_legal(s: Seq<char>)
    requires
        all_legal(s),
    ensures
        legal_name(s) == s,
    decreases s.len(),
{
    reveal(Seq::filter);
    if s.len() > 0 {
        assert forall|i: int| 0 <= i < s.drop_last().len() implies is_legal_char(
            #[trigger] s.drop_last()[i],
        ) by {
            assert(s.drop_last()[i] == s[i]);
        }
        lemma_legal_name_keeps_legal(s.drop_last());
        assert(is_legal_char(s.last()));
        assert(s.drop_last().push(s.last()) =~= s);
    }
}

/// Joins the interface's name and a field's key into a declaration name.
pub fn get_ts_interface_name(interface_name: &str, key: &str) -> (r: String)
    ensures
        r@ == ts_interface_name(interface_name@, key@),
{
    let mut out = get_legal_name(interface_name);
    let legal_key = get_legal_name(key);
    let tail = capitalize_first_letter(legal_key.as_str());
    out.append(tail.as_str());
    out
}

/// The segments of `s` that are closed by a `/`, and the characters after the
/// last `/`.
pub open spec fn split_path(s: Seq<char>) -> (Seq<Seq<char>>, Seq<char>)
    decreases s.len(),
{
    if s.len() == 0 {
        (Seq::empty(), Seq::empty())
    } else {
        let (closed, open) = split_path(s.drop_last());
        if s.last() != '/' {
            (closed, open.push(s.last()))
        } else if open.len() > 0 {
            (closed.push(open), Seq::empty())
        } else {
            (closed, Seq::empty())
        }
    }
}

/// The segments of a path: its maximal runs of characters other than `/`, in
/// their order.
pub open spec fn path_segments(s: Seq<char>) -> Seq<Seq<char>> {
    let (closed, open) = split_path(s);
    if open.len() > 0 {
        closed.push(open)
    } else {
        closed
    }
}

/// Whether a text is not empty and holds no `/`.
pub open spec fn is_segment(s: Seq<char>) -> bool {
    s.len() > 0 && forall|i: int| 0 <= i < s.len() ==> s[i] != '/'
}

/// The closed segments are segments, and the open one holds no `/`.
proof fn lemma_split_path_segments(s: Seq<char>)
    ensures
        forall|i: int| 0 <= i < split_path(s).0.len() ==> is_segment(#[trigger] split_path(s).0[i]),
        forall|i: int| 0 <= i < split_path(s).1.len() ==> split_path(s).1[i] != '/',
    decreases s.len(),
{
    if s.len() > 0 {
        lemma_split_path_segments(s.drop_last());
        let (closed, open) = split_path(s.drop_last());
        let c = s.last();
        if c != '/' {
            assert forall|i: int| 0 <= i < open.push(c).len() implies open.push(c)[i] != '/' by {
                if i < open.len() {
                    assert(open.push(c)[i] == open[i]);
                }
            }
        } else if open.len() > 0 {
            assert(is_segment(open));
            assert forall|i: int| 0 <= i < closed.push(open).len() implies is_segment(
                #[trigger] closed.push(open)[i],
            ) by {
                if i < closed.len() {
                    assert(closed.push(open)[i] == closed[i]);
                }
            }
        }
    }
}

/// Every segment of a path holds at least one character and no `/`.
pub proof fn lemma_path_segments_are_segments(s: Seq<char>)
    ensures
        forall|i: int| 0 <= i < path_segments(s).len() ==> is_segment(#[trigger] path_segments(s)[i]),
{
    lemma_split_path_segments(s);
}

/// What each of the strings holds.
pub open spec fn texts(v: Seq<String>) -> Seq<Seq<char>> {
    Seq::new(v.len(), |i: int| v[i]@)
}

/// Splits a path at every `/` and drops the empty segments.
pub fn get_path_arr(raw_path: String) -> (r: Vec<String>)
    ensures
        texts(r@) == path_segments(raw_path@),
{
    let mut closed: Vec<String> = Vec::new();
    let mut open = String::new();
    let raw = raw_path.as_str();
    for c in it: raw.chars()
        invariant
            it.seq() == raw@,
            (texts(closed@), open@) == split_path(raw@.take(it.index() as int)),
    {
        proof {
            let i = it.index() as int;
            assert(raw@.take(i + 1).drop_last() =~= raw@.take(i));
        }
        if c != '/' {
            open.push(c);
        } else if !open.as_str().is_empty() {
            let ghost before = texts(closed@);
            closed.push(open);
            open = String::new();
            assert(texts(closed@) =~= before.push(closed@.last()@));
        }
    }
    proof {
        assert(raw@.take(raw@.len() as int) =~= raw@);
    }
    if !open.as_str().is_empty() {
        let ghost before = texts(closed@);
        closed.push(open);
        assert(texts(closed@) =~= before.push(closed@.last()@));
    }
    closed
}

/// The character of one decimal digit.
pub open spec fn digit_char(d: nat) -> char {
    (('0' as u8) + d) as char
}

/// The decimal digits of a number, without a leading zero.
pub open spec fn decimal(n: nat) -> Seq<char>
    decreases n,
{
    if n < 10 {
        seq![digit_char(n)]
    } else {
        decimal(n / 10).push(digit_char(n % 10))
    }
}

/// Writes a number in decimal digits.
pub fn u32_to_string(n: u32) -> (r: String)
    ensures
        r@ == decimal(n as nat),
    decreases n,
{
    if n < 10 {
        let mut out = String::new();
        out.push((('0' as u8) + (n as u8)) as char);
        assert(out@ =~= seq![digit_char(n as nat)]);
        out
    } else {
        let mut out = u32_to_string(n / 10);
        out.push((('0' as u8) + ((n % 10) as u8)) as char);
        out
    }
}

} // verus!
