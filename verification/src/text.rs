//! Numbers as text: the digits that listings and renderings are made of.

use vstd::prelude::*;

verus! {

/// The character for one digit below 16, with letters in upper or lower case.
pub open spec fn digit_char(d: nat, upper: bool) -> char {
    if d == 0 {
        '0'
    } else if d == 1 {
        '1'
    } else if d == 2 {
        '2'
    } else if d == 3 {
        '3'
    } else if d == 4 {
        '4'
    } else if d == 5 {
        '5'
    } else if d == 6 {
        '6'
    } else if d == 7 {
        '7'
    } else if d == 8 {
        '8'
    } else if d == 9 {
        '9'
    } else if d == 10 {
        if upper { 'A' } else { 'a' }
    } else if d == 11 {
        if upper { 'B' } else { 'b' }
    } else if d == 12 {
        if upper { 'C' } else { 'c' }
    } else if d == 13 {
        if upper { 'D' } else { 'd' }
    } else if d == 14 {
        if upper { 'E' } else { 'e' }
    } else {
        if upper { 'F' } else { 'f' }
    }
}

/// `n` in decimal, without leading zeros; zero is the single digit `0`.
pub open spec fn decimal(n: nat) -> Seq<char>
    decreases n,
{
    if n < 10 {
        seq![digit_char(n, false)]
    } else {
        decimal(n / 10).push(digit_char(n % 10, false))
    }
}

/// `n` in hexadecimal, most significant digit first, without leading zeros;
/// zero is the single digit `0`.
pub open spec fn hex(n: nat, upper: bool) -> Seq<char>
    decreases n,
{
    if n < 16 {
        seq![digit_char(n, upper)]
    } else {
        hex(n / 16, upper).push(digit_char(n % 16, upper))
    }
}

/// `n` in hexadecimal with lower-case letters, behind the prefix `0x`.
pub open spec fn prefixed_hex(n: nat) -> Seq<char> {
    seq!['0', 'x'] + hex(n, false)
}

/// `n` in hexadecimal with upper-case letters, filled up with zeros on the
/// left to four digits; a number of more digits keeps them all.
pub open spec fn padded_hex(n: nat) -> Seq<char> {
    let d = hex(n, true);
    if d.len() < 4 {
        Seq::new((4 - d.len()) as nat, |i: int| '0') + d
    } else {
        d
    }
}

/// `'1'` where `b` has a bit of `mask` set, `'0'` where it has none.
pub open spec fn bit_char(b: u8, mask: u8) -> char {
    if b & mask != 0 {
        '1'
    } else {
        '0'
    }
}

/// The eight bits of a byte, most significant first.
pub open spec fn binary(b: u8) -> Seq<char> {
    seq![
        bit_char(b, 0x80),
        bit_char(b, 0x40),
        bit_char(b, 0x20),
        bit_char(b, 0x10),
        bit_char(b, 0x08),
        bit_char(b, 0x04),
        bit_char(b, 0x02),
        bit_char(b, 0x01),
    ]
}

/// The pieces of `parts` in their order, with `sep` between neighbours.
pub open spec fn join(parts: Seq<Seq<char>>, sep: Seq<char>) -> Seq<char>
    decreases parts.len(),
{
    if parts.len() == 0 {
        Seq::empty()
    } else if parts.len() == 1 {
        parts[0]
    } else {
        join(parts.drop_last(), sep) + sep + parts.last()
    }
}

/// Pieces behind a first piece are joined to the first piece, the
/// separator and the pieces behind it, joined.
pub proof fn lemma_join_front(parts: Seq<Seq<char>>, sep: Seq<char>)
    requires
        parts.len() >= 2,
    ensures
        join(parts, sep) == parts[0] + sep + join(parts.drop_first(), sep),
    decreases parts.len(),
{
    if parts.len() == 2 {
        assert(parts.drop_last().len() == 1);
        assert(parts.drop_first().len() == 1);
        assert(join(parts.drop_last(), sep) == parts[0]);
        assert(join(parts.drop_first(), sep) == parts[1]);
    } else {
        let init = parts.drop_last();
        lemma_join_front(init, sep);
        assert(init.drop_first() =~= parts.drop_first().drop_last());
        assert(join(parts, sep) =~= parts[0] + sep + join(parts.drop_first(), sep));
    }
}

/// Returns the text of one digit below 16.
pub fn digit_str(d: u8, upper: bool) -> (s: &'static str)
    requires
        d < 16,
    ensures
        s@ == seq![digit_char(d as nat, upper)],
{
    proof {
        reveal_strlit("0");
        reveal_strlit("1");
        reveal_strlit("2");
        reveal_strlit("3");
        reveal_strlit("4");
        reveal_strlit("5");
        reveal_strlit("6");
        reveal_strlit("7");
        reveal_strlit("8");
        reveal_strlit("9");
        reveal_strlit("a");
        reveal_strlit("b");
        reveal_strlit("c");
        reveal_strlit("d");
        reveal_strlit("e");
        reveal_strlit("f");
        reveal_strlit("A");
        reveal_strlit("B");
        reveal_strlit("C");
        reveal_strlit("D");
        reveal_strlit("E");
        reveal_strlit("F");
    }
    let s: &'static str = match d {
        0 => "0",
        1 => "1",
        2 => "2",
        3 => "3",
        4 => "4",
        5 => "5",
        6 => "6",
        7 => "7",
        8 => "8",
        9 => "9",
        10 => if upper { "A" } else { "a" },
        11 => if upper { "B" } else { "b" },
        12 => if upper { "C" } else { "c" },
        13 => if upper { "D" } else { "d" },
        14 => if upper { "E" } else { "e" },
        _ => if upper { "F" } else { "f" },
    };
    assert(s@ =~= seq![digit_char(d as nat, upper)]);
    s
}

/// Appends `n` in decimal to `out`.
pub fn push_decimal(out: &mut String, n: usize)
    ensures
        final(out)@ == old(out)@ + decimal(n as nat),
    decreases n,
{
    if n < 10 {
        out.append(digit_str(n as u8, false));
    } else {
        push_decimal(out, n / 10);
        out.append(digit_str((n % 10) as u8, false));
        assert(out@ =~= old(out)@ + decimal(n as nat));
    }
}

/// Appends `n` in hexadecimal to `out`.
pub fn push_hex(out: &mut String, n: usize, upper: bool)
    ensures
        final(out)@ == old(out)@ + hex(n as nat, upper),
    decreases n,
{
    if n < 16 {
        out.append(digit_str(n as u8, upper));
    } else {
        push_hex(out, n / 16, upper);
        out.append(digit_str((n % 16) as u8, upper));
        assert(out@ =~= old(out)@ + hex(n as nat, upper));
    }
}

/// Appends `0x` and `n` in lower-case hexadecimal to `out`.
pub fn push_prefixed_hex(out: &mut String, n: usize)
    ensures
        final(out)@ == old(out)@ + prefixed_hex(n as nat),
{
    proof {
        reveal_strlit("0x");
    }
    out.append("0x");
    push_hex(out, n, false);
    assert(out@ =~= old(out)@ + prefixed_hex(n as nat));
}

/// The number of hexadecimal digits of a number grows with the number.
proof fn lemma_hex_len(n: nat)
    ensures
        n < 0x10 ==> hex(n, true).len() == 1,
        0x10 <= n < 0x100 ==> hex(n, true).len() == 2,
        0x100 <= n < 0x1000 ==> hex(n, true).len() == 3,
        0x1000 <= n ==> hex(n, true).len() >= 4,
    decreases n,
{
    if n >= 16 {
        lemma_hex_len(n / 16);
    }
}

/// Appends `n` in upper-case hexadecimal, at least four digits wide, to `out`.
pub fn push_padded_hex(out: &mut String, n: usize)
    ensures
        final(out)@ == old(out)@ + padded_hex(n as nat),
{
    proof {
        reveal_strlit("0");
        reveal_strlit("00");
        reveal_strlit("000");
        lemma_hex_len(n as nat);
    }
    if n < 0x10 {
        out.append("000");
    } else if n < 0x100 {
        out.append("00");
    } else if n < 0x1000 {
        out.append("0");
    }
    push_hex(out, n, true);
    assert(out@ =~= old(out)@ + padded_hex(n as nat));
}

/// Returns the text of one bit of `b`.
fn bit_str(b: u8, mask: u8) -> (s: &'static str)
    ensures
        s@ == seq![bit_char(b, mask)],
{
    proof {
        reveal_strlit("0");
        reveal_strlit("1");
    }
    let s: &'static str = if b & mask != 0 { "1" } else { "0" };
    assert(s@ =~= seq![bit_char(b, mask)]);
    s
}

/// Appends the eight bits of `b`, most significant first, to `out`.
pub fn push_binary(out: &mut String, b: u8)
    ensures
        final(out)@ == old(out)@ + binary(b),
{
    out.append(bit_str(b, 0x80));
    out.append(bit_str(b, 0x40));
    out.append(bit_str(b, 0x20));
    out.append(bit_str(b, 0x10));
    out.append(bit_str(b, 0x08));
    out.append(bit_str(b, 0x04));
    out.append(bit_str(b, 0x02));
    out.append(bit_str(b, 0x01));
    assert(out@ =~= old(out)@ + binary(b));
}

} // verus!
