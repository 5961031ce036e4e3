//! Bytes as text: one byte on each line, written as binary digits.
//!
//! Bytes are written as eight digits each, with a line feed between
//! neighbours. For reading, the text is cut at every line feed. White space
//! at both ends of a line does not count, and a line that holds nothing
//! else is passed over. What is left of a line must be one or more of the
//! digits `0` and `1`, with or without a `+` before them, and must not be a
//! number above 255.

use vstd::prelude::*;
use vstd::string::StringExecFns;
use vstd::string::StrSliceExecFns;
use crate::disassembler::{decoded, disassemble, listing_line, ListingView};
use crate::text::{binary, join, push_binary};

verus! {

/// Why text cannot be loaded.
#[derive(Debug, Clone, PartialEq, Eq)]
pub enum LoadError {
    /// This line, taken without the white space at its ends, is no byte.
    MalformedLine(String),
}

/// Model of a [`LoadError`].
pub enum LoadErrorView {
    MalformedLine(Seq<char>),
}

impl View for LoadError {
    type V = LoadErrorView;

    open spec fn view(&self) -> LoadErrorView {
        match *self {
            LoadError::MalformedLine(l) => LoadErrorView::MalformedLine(l@),
        }
    }
}

/// True for a white space character: a tab, a line feed, a vertical tab, a
/// form feed, a carriage return, a blank, and the spaces and separators
/// beyond the first 128 characters.
pub open spec fn is_space(c: char) -> bool {
    let n = c as u32;
    (0x09 <= n <= 0x0d) || n == 0x20 || n == 0x85 || n == 0xa0 || n == 0x1680 || (0x2000 <= n
        <= 0x200a) || n == 0x2028 || n == 0x2029 || n == 0x202f || n == 0x205f || n == 0x3000
}

/// The text without the white space at its start.
pub open spec fn trim_start(s: Seq<char>) -> Seq<char>
    decreases s.len(),
{
    if s.len() > 0 && is_space(s[0]) {
        trim_start(s.drop_first())
    } else {
        s
    }
}

/// The text without the white space at its end.
pub open spec fn trim_end(s: Seq<char>) -> Seq<char>
    decreases s.len(),
{
    if s.len() > 0 && is_space(s.last()) {
        trim_end(s.drop_last())
    } else {
        s
    }
}

/// The text without the white space at its ends.
pub open spec fn trim(s: Seq<char>) -> Seq<char> {
    trim_end(trim_start(s))
}

/// The number of characters before the first line feed, or of all the
/// characters where there is no line feed.
pub open spec fn line_end(text: Seq<char>) -> nat
    decreases text.len(),
{
    if text.len() == 0 || text[0] == '\n' {
        0
    } else {
        1 + line_end(text.drop_first())
    }
}

/// The number that binary digits stand for, or `None` where a character
/// is no binary digit.
pub open spec fn binary_value(digits: Seq<char>) -> Option<nat>
    decreases digits.len(),
{
    if digits.len() == 0 {
        Some(0)
    } else {
        match binary_value(digits.drop_last()) {
            None => None,
            Some(v) => if digits.last() == '0' {
                Some(2 * v)
            } else if digits.last() == '1' {
                Some(2 * v + 1)
            } else {
                None
            },
        }
    }
}

/// The byte that a line stands for, if it stands for one.
pub open spec fn line_value(line: Seq<char>) -> Option<u8> {
    let digits = if line.len() > 0 && line[0] == '+' {
        line.drop_first()
    } else {
        line
    };
    if digits.len() == 0 {
        None
    } else {
        match binary_value(digits) {
            Some(v) => if v <= 255 {
                Some(v as u8)
            } else {
                None
            },
            None => None,
        }
    }
}

/// `bytes` before the bytes of `rest`, or the error of `rest`.
pub open spec fn bytes_then(bytes: Seq<u8>, rest: Result<Seq<u8>, LoadErrorView>) -> Result<
    Seq<u8>,
    LoadErrorView,
> {
    match rest {
        Ok(more) => Ok(bytes + more),
        Err(e) => Err(e),
    }
}

/// What loading a text gives: the bytes of its lines in their order, or
/// the first line that is no byte.
pub open spec fn loaded(text: Seq<char>) -> Result<Seq<u8>, LoadErrorView>
    decreases text.len(),
{
    if text.len() == 0 {
        Ok(Seq::empty())
    } else {
        let end = line_end(text);
        let line = trim(text.take(end as int));
        if end >= text.len() {
            if line.len() == 0 {
                Ok(Seq::empty())
            } else {
                match line_value(line) {
                    Some(b) => Ok(seq![b]),
                    None => Err(LoadErrorView::MalformedLine(line)),
                }
            }
        } else {
            let rest = text.skip(end as int + 1);
            if line.len() == 0 {
                loaded(rest)
            } else {
                match line_value(line) {
                    Some(b) => bytes_then(seq![b], loaded(rest)),
                    None => Err(LoadErrorView::MalformedLine(line)),
                }
            }
        }
    }
}

/// The text of bytes: the eight binary digits of each, with a line feed
/// between neighbours.
pub open spec fn binary_text(bytes: Seq<u8>) -> Seq<char> {
    join(bytes.map_values(|b: u8| binary(b)), seq!['\n'])
}

/// Returns the text of the bytes.
pub fn to_binary_text(bytes: &[u8]) -> (s: String)
    ensures
        s@ == binary_text(bytes@),
{
    let mut s = String::new();
    let ghost lines = bytes@.map_values(|b: u8| binary(b));
    let mut k: usize = 0;
    proof {
        reveal_strlit("\n");
        assert("\n"@ =~= seq!['\n']);
    }
    while k < bytes.len()
        invariant
            k <= bytes.len(),
            lines == bytes@.map_values(|b: u8| binary(b)),
            "\n"@ == seq!['\n'],
            s@ == join(lines.take(k as int), seq!['\n']),
        decreases bytes.len() - k,
    {
        if k > 0 {
            s.append("\n");
        }
        push_binary(&mut s, bytes[k]);
        proof {
            let next = lines.take(k + 1);
            assert(next.drop_last() =~= lines.take(k as int));
            assert(s@ =~= join(next, seq!['\n']));
        }
        k += 1;
    }
    assert(lines.take(k as int) =~= lines);
    s
}

/// Returns the characters of `s`.
fn chars_of(s: &str) -> (v: Vec<char>)
    ensures
        v@ == s@,
{
    let mut v: Vec<char> = Vec::new();
    for c in it: s.chars()
        invariant
            it.seq() == s@,
            v@ == it.seq().take(it.index() as int),
    {
        v.push(c);
        assert(v@ =~= it.seq().take(it.index() + 1));
    }
    assert(v@ =~= s@);
    v
}

/// Returns whether `c` is a white space character.
pub fn char_is_space(c: char) -> (b: bool)
    ensures
        b == is_space(c),
{
    let n: u32 = c as u32;
    (0x09 <= n && n <= 0x0d) || n == 0x20 || n == 0x85 || n == 0xa0 || n == 0x1680 || (0x2000 <= n
        && n <= 0x200a) || n == 0x2028 || n == 0x2029 || n == 0x202f || n == 0x205f || n == 0x3000
}

/// The line end of a text is within the text, and the first line feed
/// stands there.
proof fn lemma_line_end(text: Seq<char>)
    ensures
        line_end(text) <= text.len(),
        line_end(text) < text.len() ==> text[line_end(text) as int] == '\n',
        forall|k: int| 0 <= k < line_end(text) ==> text[k] != '\n',
    decreases text.len(),
{
    if text.len() > 0 && text[0] != '\n' {
        let rest = text.drop_first();
        lemma_line_end(rest);
        assert forall|k: int| 0 <= k < line_end(text) implies text[k] != '\n' by {
            if k > 0 {
                assert(text[k] == rest[k - 1]);
            }
        }
    }
}

/// The place before the first line feed is the line end.
proof fn lemma_line_end_found(text: Seq<char>, end: int)
    requires
        0 <= end <= text.len(),
        forall|k: int| 0 <= k < end ==> text[k] != '\n',
        end < text.len() ==> text[end] == '\n',
    ensures
        line_end(text) == end,
{
    lemma_line_end(text);
}

/// A number grows with every binary digit behind it.
proof fn lemma_binary_value_grows(digits: Seq<char>, k: int)
    requires
        0 <= k <= digits.len(),
        binary_value(digits) is Some,
    ensures
        binary_value(digits.take(k)) is Some,
        binary_value(digits.take(k))->0 <= binary_value(digits)->0,
    decreases digits.len() - k,
{
    if k < digits.len() {
        lemma_binary_value_grows(digits.drop_last(), k);
        assert(digits.drop_last().take(k) =~= digits.take(k));
    } else {
        assert(digits.take(k) =~= digits);
    }
}

/// One where `b` has a bit of `mask` set, zero where it has none.
spec fn bit_value(b: u8, mask: u8) -> nat {
    if b & mask != 0 {
        1
    } else {
        0
    }
}

/// The eight binary digits of a byte stand for the byte, and none of them
/// is white space or a line feed.
pub proof fn lemma_binary_digits(b: u8)
    ensures
        binary(b).len() == 8,
        forall|k: int| 0 <= k < 8 ==> binary(b)[k] == '0' || binary(b)[k] == '1',
        binary_value(binary(b)) == Some(b as nat),
        line_value(binary(b)) == Some(b),
        trim(binary(b)) == binary(b),
{
    let t = binary(b);
    let v1 = bit_value(b, 0x80);
    let v2 = 2 * v1 + bit_value(b, 0x40);
    let v3 = 2 * v2 + bit_value(b, 0x20);
    let v4 = 2 * v3 + bit_value(b, 0x10);
    let v5 = 2 * v4 + bit_value(b, 0x08);
    let v6 = 2 * v5 + bit_value(b, 0x04);
    let v7 = 2 * v6 + bit_value(b, 0x02);
    let v8 = 2 * v7 + bit_value(b, 0x01);
    assert(2 * (2 * (2 * (2 * (2 * (2 * (2 * bit_value(b, 0x80) + bit_value(b, 0x40)) + bit_value(
        b,
        0x20,
    )) + bit_value(b, 0x10)) + bit_value(b, 0x08)) + bit_value(b, 0x04)) + bit_value(b, 0x02))
        + bit_value(b, 0x01) == b) by (bit_vector);
    assert(v8 == b);
    assert(t.take(0).len() == 0);
    assert(binary_value(t.take(0)) == Some(0nat));
    assert(t.take(1).drop_last() =~= t.take(0));
    assert(binary_value(t.take(1)) == Some(v1));
    assert(t.take(2).drop_last() =~= t.take(1));
    assert(binary_value(t.take(2)) == Some(v2));
    assert(t.take(3).drop_last() =~= t.take(2));
    assert(binary_value(t.take(3)) == Some(v3));
    assert(t.take(4).drop_last() =~= t.take(3));
    assert(binary_value(t.take(4)) == Some(v4));
    assert(t.take(5).drop_last() =~= t.take(4));
    assert(binary_value(t.take(5)) == Some(v5));
    assert(t.take(6).drop_last() =~= t.take(5));
    assert(binary_value(t.take(6)) == Some(v6));
    assert(t.take(7).drop_last() =~= t.take(6));
    assert(binary_value(t.take(7)) == Some(v7));
    assert(t.take(8).drop_last() =~= t.take(7));
    assert(binary_value(t.take(8)) == Some(v8));
    assert(t.take(8) =~= t);
    assert(!is_space('0') && !is_space('1'));
    assert(trim_start(t) == t);
    assert(trim_end(t) == t);
}

/// The text of a byte loads as the byte, and so does the text of a byte
/// with a line feed and more text behind it, before what that text loads
/// as.
pub proof fn lemma_loaded_line(b: u8, rest: Seq<char>)
    ensures
        loaded(binary(b)) == Ok::<Seq<u8>, LoadErrorView>(seq![b]),
        loaded(binary(b) + seq!['\n'] + rest) == bytes_then(seq![b], loaded(rest)),
{
    let line = binary(b);
    lemma_binary_digits(b);
    lemma_line_end_found(line, 8);
    assert(line.take(8) =~= line);
    let text = line + seq!['\n'] + rest;
    assert forall|k: int| 0 <= k < 8 implies text[k] != '\n' by {
        assert(text[k] == line[k]);
    }
    assert(text[8] == '\n');
    lemma_line_end_found(text, 8);
    assert(text.take(8) =~= line);
    assert(text.skip(9) =~= rest);
}

/// Returns the byte that the characters from `from` up to `to` stand for.
fn byte_of(chars: &Vec<char>, from: usize, to: usize) -> (r: Option<u8>)
    requires
        from < to <= chars.len(),
    ensures
        r == line_value(chars@.subrange(from as int, to as int)),
{
    let ghost line = chars@.subrange(from as int, to as int);
    let start: usize = if chars[from] == '+' {
        from + 1
    } else {
        from
    };
    let ghost digits = chars@.subrange(start as int, to as int);
    assert(digits =~= if line.len() > 0 && line[0] == '+' {
        line.drop_first()
    } else {
        line
    });
    if start == to {
        return None;
    }
    let mut value: u16 = 0;
    let mut k: usize = start;
    assert(digits.take(0).len() == 0);
    while k < to
        invariant
            start <= k <= to,
            to <= chars.len(),
            line == chars@.subrange(from as int, to as int),
            digits == chars@.subrange(start as int, to as int),
            digits.len() > 0,
            digits == if line.len() > 0 && line[0] == '+' {
                line.drop_first()
            } else {
                line
            },
            binary_value(digits.take(k - start)) == Some(value as nat),
            value <= 255,
        decreases to - k,
    {
        proof {
            assert(digits.take(k - start + 1).drop_last() =~= digits.take(k - start));
            assert(digits.take(k - start + 1).last() == chars[k as int]);
        }
        let c = chars[k];
        if c != '0' && c != '1' {
            proof {
                assert(binary_value(digits.take(k - start + 1)) is None);
                if binary_value(digits) is Some {
                    lemma_binary_value_grows(digits, k - start + 1);
                }
            }
            return None;
        }
        let digit: u16 = if c == '0' {
            0
        } else {
            1
        };
        value = 2 * value + digit;
        assert(binary_value(digits.take(k - start + 1)) == Some(value as nat));
        if value > 255 {
            proof {
                if binary_value(digits) is Some {
                    lemma_binary_value_grows(digits, k - start + 1);
                }
            }
            return None;
        }
        k += 1;
    }
    assert(digits.take(k - start) =~= digits);
    Some(value as u8)
}

/// Trimming at the start passes over white space.
proof fn lemma_trim_start_step(s: Seq<char>, a: int, b: int)
    requires
        0 <= a < b <= s.len(),
        is_space(s[a]),
    ensures
        trim_start(s.subrange(a, b)) == trim_start(s.subrange(a + 1, b)),
{
    assert(s.subrange(a, b).drop_first() =~= s.subrange(a + 1, b));
}

/// Trimming at the end passes over white space.
proof fn lemma_trim_end_step(s: Seq<char>, a: int, b: int)
    requires
        0 <= a < b <= s.len(),
        is_space(s[b - 1]),
    ensures
        trim_end(s.subrange(a, b)) == trim_end(s.subrange(a, b - 1)),
{
    assert(s.subrange(a, b).drop_last() =~= s.subrange(a, b - 1));
}

/// Bytes before bytes before a rest are all those bytes before the rest.
proof fn lemma_bytes_then_twice(a: Seq<u8>, b: Seq<u8>, rest: Result<Seq<u8>, LoadErrorView>)
    ensures
        bytes_then(a, bytes_then(b, rest)) == bytes_then(a + b, rest),
{
    match rest {
        Ok(more) => {
            assert(a + (b + more) =~= (a + b) + more);
        },
        Err(_) => {},
    }
}

/// Turns text that holds one byte on each line into the bytes.
///
/// Fails on the first line that is no byte, with that line, taken without
/// the white space at its ends.
pub fn parse_binary_text(content: &str) -> (r: Result<Vec<u8>, LoadError>)
    ensures
        match r {
            Ok(bytes) => loaded(content@) == Ok::<Seq<u8>, LoadErrorView>(bytes@),
            Err(e) => loaded(content@) == Err::<Seq<u8>, LoadErrorView>(e@),
        },
{
    let chars = chars_of(content);
    let ghost text = chars@;
    let mut out: Vec<u8> = Vec::new();
    let mut pos: usize = 0;
    let mut done = false;
    assert(text.skip(0) =~= text);
    assert(Seq::<u8>::empty() + Seq::<u8>::empty() =~= Seq::<u8>::empty());
    while !done
        invariant
            pos <= chars.len(),
            text == chars@,
            text == content@,
            done ==> loaded(text) == Ok::<Seq<u8>, LoadErrorView>(out@),
            !done ==> loaded(text) == bytes_then(out@, loaded(text.skip(pos as int))),
        decreases chars.len() - pos + if done { 0nat } else { 1nat },
    {
        let ghost rest = text.skip(pos as int);
        let ghost line_start = pos as int;
        if pos >= chars.len() {
            assert(out@ + Seq::<u8>::empty() =~= out@);
            done = true;
        } else {
            let mut end: usize = pos;
            while end < chars.len() && chars[end] != '\n'
                invariant
                    pos <= end <= chars.len(),
                    forall|k: int| pos <= k < end ==> chars[k] != '\n',
                decreases chars.len() - end,
            {
                end += 1;
            }
            proof {
                lemma_line_end_found(rest, end - pos);
                assert(rest.take(end - pos) =~= text.subrange(pos as int, end as int));
            }
            let mut a: usize = pos;
            while a < end && char_is_space(chars[a])
                invariant
                    pos <= a <= end <= chars.len(),
                    text == chars@,
                    trim_start(text.subrange(pos as int, end as int)) == trim_start(
                        text.subrange(a as int, end as int),
                    ),
                decreases end - a,
            {
                proof {
                    lemma_trim_start_step(text, a as int, end as int);
                }
                a += 1;
            }
            let mut b: usize = end;
            while b > a && char_is_space(chars[b - 1])
                invariant
                    a <= b <= end <= chars.len(),
                    text == chars@,
                    trim_end(text.subrange(a as int, end as int)) == trim_end(
                        text.subrange(a as int, b as int),
                    ),
                decreases b - a,
            {
                proof {
                    lemma_trim_end_step(text, a as int, b as int);
                }
                b -= 1;
            }
            let ghost line = text.subrange(a as int, b as int);
            proof {
                let from_a = text.subrange(a as int, end as int);
                if a < end {
                    assert(from_a[0] == text[a as int]);
                }
                assert(trim_start(from_a) == from_a);
                if a < b {
                    assert(line.last() == text[b - 1]);
                }
                assert(trim_end(line) == line);
                assert(trim(text.subrange(pos as int, end as int)) == line);
            }
            let ghost before = out@;
            proof {
                assert(rest.len() > 0);
                assert(line_end(rest) == end - pos);
                assert(trim(rest.take(line_end(rest) as int)) == line);
                if end < chars.len() {
                    assert(rest.skip(end - pos + 1) =~= text.skip(end + 1));
                }
                assert(before + Seq::<u8>::empty() =~= before);
            }
            if a < b {
                match byte_of(&chars, a, b) {
                    Some(v) => {
                        out.push(v);
                        proof {
                            assert(out@ =~= before + seq![v]);
                            lemma_bytes_then_twice(before, seq![v], loaded(text.skip(end + 1)));
                        }
                    },
                    None => {
                        let bad = String::from_str(content.substring_char(a, b));
                        return Err(LoadError::MalformedLine(bad));
                    },
                }
            }
            if end < chars.len() {
                pos = end + 1;
            } else {
                pos = end;
                done = true;
            }
        }
    }
    Ok(out)
}

/// Returns the listing, one line for each instruction, of the bytes that a
/// text holds, or the first line of the text that is no byte.
pub fn disassemble_text(content: &str) -> (r: Result<Vec<String>, LoadError>)
    ensures
        match (r, loaded(content@)) {
            (Ok(lines), Ok(bytes)) => lines.deep_view() == decoded(bytes, 0).map_values(
                |l: ListingView| listing_line(l),
            ),
            (Err(e), Err(f)) => e@ == f,
            _ => false,
        },
{
    match parse_binary_text(content) {
        Ok(bytes) => Ok(disassemble(bytes.as_slice())),
        Err(e) => Err(e),
    }
}

} // verus!
