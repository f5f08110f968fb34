//! Searching byte strings and splitting UTF-8 text at ASCII marks.
use vstd::prelude::*;
use vstd::string::*;
use vstd::utf8::*;

verus! {

/// The least index of `from..end` at which `p` holds, if there is one.
pub open spec fn first_index(p: spec_fn(int) -> bool, from: int, end: int) -> Option<int>
    decreases end - from,
{
    if from >= end {
        None
    } else if p(from) {
        Some(from)
    } else {
        first_index(p, from + 1, end)
    }
}

/// `first_index` finds an index exactly when one exists, and then the least.
pub proof fn lemma_first_index(p: spec_fn(int) -> bool, from: int, end: int)
    ensures
        match first_index(p, from, end) {
            Some(i) => from <= i < end && p(i) && forall|j: int| from <= j < i ==> !#[trigger] p(j),
            None => forall|j: int| from <= j < end ==> !#[trigger] p(j),
        },
    decreases end - from,
{
    if from < end && !p(from) {
        lemma_first_index(p, from + 1, end);
    }
}

/// The indices at which `t` has the character `c`.
pub open spec fn has_char(t: Seq<char>, c: char) -> spec_fn(int) -> bool {
    |i: int| t[i] == c
}

/// Where the character `c` first stands in `t`.
pub open spec fn index_of_char(t: Seq<char>, c: char) -> Option<int> {
    first_index(has_char(t, c), 0, t.len() as int)
}

/// `index_of_char` is the least index of `c`, where there is one.
pub proof fn lemma_index_of_char(t: Seq<char>, c: char)
    ensures
        match index_of_char(t, c) {
            Some(i) => 0 <= i < t.len() && t[i] == c && forall|j: int| 0 <= j < i ==> t[j] != c,
            None => forall|j: int| 0 <= j < t.len() ==> t[j] != c,
        },
{
    let p = has_char(t, c);
    lemma_first_index(p, 0, t.len() as int);
    assert forall|j: int| 0 <= j < t.len() && #[trigger] t[j] == c implies p(j) by {}
}

/// The part of `t` in front of the first `c`; all of `t` where there is no `c`.
pub open spec fn until_char(t: Seq<char>, c: char) -> Seq<char> {
    match index_of_char(t, c) {
        Some(i) => t.take(i),
        None => t,
    }
}

/// `until_char` has no `c` in it, and `t` either ends there or goes on with a `c`.
pub proof fn lemma_until_char(t: Seq<char>, c: char)
    ensures
        !until_char(t, c).contains(c),
        until_char(t, c).len() <= t.len(),
        until_char(t, c) == t.take(until_char(t, c).len() as int),
        until_char(t, c).len() < t.len() ==> t[until_char(t, c).len() as int] == c,
{
    lemma_index_of_char(t, c);
    assert(t.take(t.len() as int) =~= t);
}

/// The indices at which a line break `\r\n` starts in `t`.
pub open spec fn breaks_line(t: Seq<char>) -> spec_fn(int) -> bool {
    |i: int| t[i] == '\r' && t[i + 1] == '\n'
}

/// Where the first line break of `t` starts.
pub open spec fn line_end(t: Seq<char>) -> Option<int> {
    first_index(breaks_line(t), 0, t.len() - 1)
}

proof fn lemma_ascii_scalar(c: char)
    requires
        (c as u32) < 128,
    ensures
        encode_scalar(c as u32) == seq![c as u8],
{
    let v = c as u32;
    assert(leading_byte_width_1(v) == v as u8) by (bit_vector)
        requires
            v < 128,
    ;
}

proof fn lemma_encode_split(t: Seq<char>, k: int)
    requires
        0 <= k <= t.len(),
    ensures
        encode_utf8(t) == encode_utf8(t.take(k)) + encode_utf8(t.skip(k)),
    decreases k,
{
    if k == 0 {
        assert(t.skip(0) =~= t);
        assert(t.take(0).len() == 0);
        assert(encode_utf8(t) =~= encode_utf8(t.take(0)) + encode_utf8(t.skip(0)));
    } else {
        let rest = t.drop_first();
        lemma_encode_split(rest, k - 1);
        assert(t.take(k).drop_first() =~= rest.take(k - 1));
        assert(t.skip(k) =~= rest.skip(k - 1));
        assert(encode_utf8(t) =~= encode_utf8(t.take(k)) + encode_utf8(t.skip(k)));
    }
}

/// Texts in a row are encoded by their encodings in a row.
pub proof fn lemma_encode_concat(a: Seq<char>, b: Seq<char>)
    ensures
        encode_utf8(a + b) == encode_utf8(a) + encode_utf8(b),
{
    lemma_encode_split(a + b, a.len() as int);
    assert((a + b).take(a.len() as int) =~= a);
    assert((a + b).skip(a.len() as int) =~= b);
}

/// An ASCII character of `t` stands in the encoding of `t`, right behind the
/// encoding of what precedes it.
proof fn lemma_ascii_position(t: Seq<char>, k: int)
    requires
        0 <= k < t.len(),
        (t[k] as u32) < 128,
    ensures
        encode_utf8(t.take(k)).len() < encode_utf8(t).len(),
        encode_utf8(t)[encode_utf8(t.take(k)).len() as int] == t[k] as u8,
        encode_utf8(t.take(k + 1)).len() == encode_utf8(t.take(k)).len() + 1,
{
    lemma_encode_split(t, k);
    lemma_ascii_scalar(t[k]);
    let here = t.skip(k);
    assert(here[0] == t[k]);
    assert(encode_utf8(here) == seq![t[k] as u8] + encode_utf8(here.drop_first()));
    let upto = t.take(k + 1);
    lemma_encode_split(upto, k);
    assert(upto.take(k) =~= t.take(k));
    let last = upto.skip(k);
    assert(last.len() == 1 && last[0] == t[k]);
    assert(last.drop_first().len() == 0);
    assert(encode_utf8(last.drop_first()) =~= Seq::<u8>::empty());
    assert(encode_utf8(last) =~= encode_scalar(last[0] as u32) + encode_utf8(last.drop_first()));
}

/// Text cut in front of an ASCII byte: the two parts of the text carry the two
/// parts of its encoding.
proof fn lemma_cut(whole: &str, left: &str, right: &str)
    requires
        whole.spec_bytes() == left.spec_bytes() + right.spec_bytes(),
    ensures
        whole@ == left@ + right@,
{
    lemma_encode_concat(left@, right@);
    encode_utf8_decode_utf8(left@ + right@);
    encode_utf8_decode_utf8(whole@);
}

/// Text whose encoding starts with an ASCII byte starts with that character.
proof fn lemma_ascii_head(t: Seq<char>)
    requires
        encode_utf8(t).len() > 0,
        encode_utf8(t)[0] < 128,
    ensures
        t.len() > 0,
        t[0] == encode_utf8(t)[0] as char,
{
    if t.len() > 0 {
        encode_utf8_first_scalar(t);
        let b = encode_utf8(t)[0];
        assert((b & 0x7f) as u32 == b as u32) by (bit_vector)
            requires
                b < 128,
        ;
        char_u32_cast(t[0], b as u32);
    }
}

/// Where the encoding of `t` starts with `n` ASCII bytes, `t` starts with those
/// characters.
pub proof fn lemma_ascii_prefix(t: Seq<char>, n: int)
    requires
        0 <= n <= encode_utf8(t).len(),
        forall|i: int| 0 <= i < n ==> encode_utf8(t)[i] < 128,
    ensures
        n <= t.len(),
        forall|i: int| 0 <= i < n ==> t[i] == encode_utf8(t)[i] as char,
    decreases n,
{
    if n > 0 {
        let tail = t.drop_first();
        lemma_ascii_head(t);
        lemma_ascii_scalar(t[0]);
        assert(encode_utf8(t) == seq![t[0] as u8] + encode_utf8(tail));
        assert forall|i: int| 0 <= i < n - 1 implies encode_utf8(tail)[i] < 128 by {
            assert(encode_utf8(t)[i + 1] == encode_utf8(tail)[i]);
        }
        lemma_ascii_prefix(tail, n - 1);
        assert forall|i: int| 0 <= i < n implies t[i] == encode_utf8(t)[i] as char by {
            if i > 0 {
                assert(t[i] == tail[i - 1]);
            }
        }
    }
}

/// An ASCII byte in the encoding of `t` is a character of `t`: what follows from it
/// on is the encoding of what follows in `t`.
pub proof fn lemma_ascii_byte(t: Seq<char>, at: int) -> (k: int)
    requires
        0 <= at < encode_utf8(t).len(),
        encode_utf8(t)[at] < 128,
    ensures
        0 <= k < t.len(),
        encode_utf8(t.take(k)).len() == at,
        encode_utf8(t.skip(k)) == encode_utf8(t).skip(at),
        t[k] == encode_utf8(t)[at] as char,
{
    let bytes = encode_utf8(t);
    encode_utf8_valid_utf8(t);
    encode_utf8_decode_utf8(t);
    is_char_boundary_iff_not_is_continuation_byte(bytes, at);
    valid_utf8_split(bytes, at);
    decode_utf8_split(bytes, at);
    let left = decode_utf8(bytes.take(at));
    let right = decode_utf8(bytes.skip(at));
    decode_utf8_encode_utf8(bytes.take(at));
    decode_utf8_encode_utf8(bytes.skip(at));
    assert(t.take(left.len() as int) =~= left);
    assert(t.skip(left.len() as int) =~= right);
    lemma_ascii_head(right);
    left.len() as int
}

/// Splits `whole` in front of byte `at`, which is ASCII.
fn cut_at_ascii(whole: &str, at: usize) -> (parts: (&str, &str))
    requires
        at < whole.spec_bytes().len(),
        whole.spec_bytes()[at as int] < 128,
    ensures
        whole@ == parts.0@ + parts.1@,
        parts.0.spec_bytes() == whole.spec_bytes().take(at as int),
        parts.1@.len() > 0,
        parts.1@[0] == whole.spec_bytes()[at as int] as char,
        parts.1.spec_bytes() == whole.spec_bytes().skip(at as int),
{
    proof {
        encode_utf8_valid_utf8(whole@);
        is_char_boundary_iff_not_is_continuation_byte(whole.spec_bytes(), at as int);
    }
    let parts = whole.split_at(at);
    proof {
        let bytes = whole.spec_bytes();
        assert(bytes =~= parts.0.spec_bytes() + parts.1.spec_bytes());
        lemma_cut(whole, parts.0, parts.1);
        assert(parts.1.spec_bytes()[0] == bytes[at as int]);
        lemma_ascii_head(parts.1@);
        assert(parts.0.spec_bytes() =~= bytes.take(at as int));
        assert(parts.1.spec_bytes() =~= bytes.skip(at as int));
    }
    parts
}

/// Splits `text` around the first character `mark`, which is ASCII.
pub fn split_once<'a>(text: &'a str, mark: char) -> (parts: Option<(&'a str, &'a str)>)
    requires
        (mark as u32) < 128,
    ensures
        match index_of_char(text@, mark) {
            Some(i) => parts matches Some((before, after)) && before@ == text@.take(i) && after@
                == text@.skip(i + 1),
            None => parts is None,
        },
{
    let bytes = text.as_bytes();
    proof {
        lemma_index_of_char(text@, mark);
    }
    let byte: u8 = mark as u8;
    let mut at: usize = 0;
    while at < bytes.len() && bytes[at] != byte
        invariant
            at <= bytes@.len(),
            forall|j: int| 0 <= j < at ==> bytes@[j] != byte,
        decreases bytes@.len() - at,
    {
        at += 1;
    }
    if at == bytes.len() {
        proof {
            if let Some(k) = index_of_char(text@, mark) {
                lemma_ascii_position(text@, k);
            }
        }
        return None;
    }
    let (before, rest) = cut_at_ascii(text, at);
    let tail = split_first(rest);
    proof {
        let k = before@.len() as int;
        assert(text@[k] == mark);
        if let Some(i) = index_of_char(text@, mark) {
            if i < k {
                lemma_ascii_position(before@, i);
                assert(before@[i] == text@[i]);
            }
        }
        assert(text@.take(k) =~= before@);
        assert(text@.skip(k + 1) =~= tail@);
    }
    Some((before, tail))
}

/// `text` without its first character, which is ASCII.
fn split_first(text: &str) -> (tail: &str)
    requires
        text@.len() > 0,
        (text@[0] as u32) < 128,
    ensures
        tail@ == text@.drop_first(),
{
    let ghost bytes = text.spec_bytes();
    proof {
        lemma_ascii_scalar(text@[0]);
        encode_utf8_valid_utf8(text@);
        encode_utf8_first_scalar(text@);
        reveal_with_fuel(is_char_boundary, 2);
    }
    let parts = text.split_at(1);
    proof {
        assert(bytes =~= parts.0.spec_bytes() + parts.1.spec_bytes());
        lemma_cut(text, parts.0, parts.1);
        assert(parts.1.spec_bytes() =~= encode_utf8(text@.drop_first()));
        encode_utf8_decode_utf8(parts.1@);
        encode_utf8_decode_utf8(text@.drop_first());
    }
    parts.1
}

/// The first line of `text`, without its line break.
pub fn first_line<'a>(text: &'a str) -> (line: Option<&'a str>)
    ensures
        match line_end(text@) {
            Some(i) => line matches Some(l) && l@ == text@.take(i),
            None => line is None,
        },
{
    let bytes = text.as_bytes();
    let ghost p = breaks_line(text@);
    let mut at: usize = 0;
    while at < bytes.len() && bytes.len() - at > 1
        invariant
            bytes@ == text.spec_bytes(),
            p == breaks_line(text@),
            at <= bytes@.len(),
            forall|j: int| 0 <= j < at ==> !(bytes@[j] == 13 && #[trigger] bytes@[j + 1] == 10),
        decreases bytes@.len() - at,
    {
        if bytes[at] == 13 && bytes[at + 1] == 10 {
            let (line, rest) = cut_at_ascii(text, at);
            proof {
                let k = line@.len() as int;
                lemma_first_index(p, 0, text@.len() - 1);
                lemma_line_break(text@, line@, rest@);
                assert(p(k));
                if let Some(i) = line_end(text@) {
                    if i < k {
                        lemma_break_position(text@, i);
                        assert(line@.take(i) =~= text@.take(i));
                        assert(line@[i] == text@[i]);
                        lemma_ascii_position(line@, i);
                    }
                }
                assert(text@.take(k) =~= line@);
            }
            return Some(line);
        }
        at += 1;
    }
    proof {
        lemma_first_index(p, 0, text@.len() - 1);
        if let Some(i) = line_end(text@) {
            lemma_break_position(text@, i);
        }
    }
    None
}

/// A line break of `t` is encoded by the bytes 13 and 10, in a row.
proof fn lemma_break_position(t: Seq<char>, i: int)
    requires
        0 <= i < t.len() - 1,
        t[i] == '\r',
        t[i + 1] == '\n',
    ensures
        ({
            let at = encode_utf8(t.take(i)).len() as int;
            &&& at + 1 < encode_utf8(t).len()
            &&& encode_utf8(t)[at] == 13
            &&& encode_utf8(t)[at + 1] == 10
        }),
{
    lemma_ascii_position(t, i);
    lemma_ascii_position(t, i + 1);
}

/// Where the encoding of `rest` starts with the bytes 13 and 10, `t` has a
/// line break behind `line`.
proof fn lemma_line_break(t: Seq<char>, line: Seq<char>, rest: Seq<char>)
    requires
        t == line + rest,
        encode_utf8(rest).len() >= 2,
        encode_utf8(rest)[0] == 13,
        encode_utf8(rest)[1] == 10,
    ensures
        line.len() < t.len() - 1,
        t[line.len() as int] == '\r',
        t[line.len() as int + 1] == '\n',
{
    lemma_ascii_prefix(rest, 2);
}

/// Tells whether two texts are the same.
pub fn same_text(a: &str, b: &str) -> (same: bool)
    ensures
        same == (a@ == b@),
{
    let x = a.as_bytes();
    let y = b.as_bytes();
    proof {
        encode_utf8_decode_utf8(a@);
        encode_utf8_decode_utf8(b@);
    }
    if x.len() != y.len() {
        return false;
    }
    let mut i: usize = 0;
    while i < x.len()
        invariant
            i <= x@.len(),
            x@.len() == y@.len(),
            x@.take(i as int) =~= y@.take(i as int),
            x@ == encode_utf8(a@),
            y@ == encode_utf8(b@),
        decreases x@.len() - i,
    {
        if x[i] != y[i] {
            assert(x@[i as int] != y@[i as int]);
            return false;
        }
        i += 1;
    }
    assert(x@.take(i as int) =~= x@);
    assert(y@.take(i as int) =~= y@);
    true
}

/// Reads bytes as UTF-8 text by `core::str::from_utf8`. Trusted: the call
/// succeeds exactly on valid UTF-8, and the text it returns is the one that the
/// bytes encode.
#[verifier::external_body]
pub(crate) fn utf8_text<'a>(bytes: &'a [u8]) -> (text: Option<&'a str>)
    ensures
        text is Some <==> valid_utf8(bytes@),
        text matches Some(t) ==> t@ == decode_utf8(bytes@),
{
    core::str::from_utf8(bytes).ok()
}

} // verus!
