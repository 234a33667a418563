//! Texts made of numbers and bytes.

use vstd::prelude::*;
use vstd::string::StringExecFns;

verus! {

/// The character of a hexadecimal digit, in lower case.
pub open spec fn hex_char(digit: nat) -> char {
    if digit < 10 {
        (0x30 + digit) as char
    } else {
        (0x61 + digit - 10) as char
    }
}

/// A number in decimal, without leading zeros.
pub open spec fn decimal_text(value: nat) -> Seq<char>
    decreases value,
{
    if value < 10 {
        seq![hex_char(value)]
    } else {
        decimal_text(value / 10).push(hex_char(value % 10))
    }
}

/// A byte as two hexadecimal digits.
pub open spec fn hex_byte(byte: u8) -> Seq<char> {
    seq![hex_char((byte / 16) as nat), hex_char((byte % 16) as nat)]
}

/// Bytes as hexadecimal digits, two for each.
pub open spec fn hex_text(bytes: Seq<u8>) -> Seq<char>
    decreases bytes.len(),
{
    if bytes.len() == 0 {
        Seq::empty()
    } else {
        hex_text(bytes.drop_last()) + hex_byte(bytes.last())
    }
}

/// Bytes as a list of two-digit hexadecimal numbers, without the brackets.
pub open spec fn hex_items(bytes: Seq<u8>) -> Seq<char>
    decreases bytes.len(),
{
    if bytes.len() == 0 {
        Seq::empty()
    } else if bytes.len() == 1 {
        hex_byte(bytes[0])
    } else {
        hex_items(bytes.drop_last()) + ", "@ + hex_byte(bytes.last())
    }
}

/// Bytes as a bracketed list of two-digit hexadecimal numbers.
pub open spec fn hex_list(bytes: Seq<u8>) -> Seq<char> {
    "["@ + hex_items(bytes) + "]"@
}

/// Appends a text.
pub fn push_text(out: &mut String, text: &str)
    ensures
        final(out)@ == old(out)@ + text@,
{
    out.append(text);
}

fn push_digit(out: &mut String, digit: u8)
    requires
        digit < 16,
    ensures
        final(out)@ == old(out)@.push(hex_char(digit as nat)),
{
    proof {
        reveal_strlit("0");
        reveal_strlit("1");
        reveal_strlit("2");
        reveal_strlit("3");
        reveal_strlit("4");
        reveal_strlit("5");
        reveal_strlit("6");
        reveal_strlit("7");
        reveal_strlit("8");
        reveal_strlit("9");
        reveal_strlit("a");
        reveal_strlit("b");
        reveal_strlit("c");
        reveal_strlit("d");
        reveal_strlit("e");
        reveal_strlit("f");
    }
    match digit {
        0 => out.append("0"),
        1 => out.append("1"),
        2 => out.append("2"),
        3 => out.append("3"),
        4 => out.append("4"),
        5 => out.append("5"),
        6 => out.append("6"),
        7 => out.append("7"),
        8 => out.append("8"),
        9 => out.append("9"),
        10 => out.append("a"),
        11 => out.append("b"),
        12 => out.append("c"),
        13 => out.append("d"),
        14 => out.append("e"),
        _ => out.append("f"),
    }
    assert(out@ =~= old(out)@.push(hex_char(digit as nat)));
}

/// Appends a number in decimal.
pub fn push_decimal(out: &mut String, value: u64)
    ensures
        final(out)@ == old(out)@ + decimal_text(value as nat),
    decreases value,
{
    if value < 10 {
        push_digit(out, value as u8);
        assert(out@ =~= old(out)@ + decimal_text(value as nat));
    } else {
        push_decimal(out, value / 10);
        push_digit(out, (value % 10) as u8);
        assert(out@ =~= old(out)@ + decimal_text(value as nat));
    }
}

/// Appends a byte as two hexadecimal digits.
pub fn push_byte_digits(out: &mut String, byte: u8)
    ensures
        final(out)@ == old(out)@ + hex_byte(byte),
{
    push_digit(out, byte / 16);
    push_digit(out, byte % 16);
    assert(out@ =~= old(out)@ + hex_byte(byte));
}

/// Appends bytes as hexadecimal digits.
pub fn push_hex(out: &mut String, bytes: &[u8])
    ensures
        final(out)@ == old(out)@ + hex_text(bytes@),
{
    let mut i: usize = 0;
    assert(out@ + hex_text(bytes@.take(0)) =~= out@);
    while i < bytes.len()
        invariant
            i <= bytes@.len(),
            out@ == old(out)@ + hex_text(bytes@.take(i as int)),
        decreases bytes@.len() - i,
    {
        let ghost part = bytes@.take(i + 1);
        assert(part.drop_last() =~= bytes@.take(i as int));
        let ghost had = out@;
        push_byte_digits(out, bytes[i]);
        assert(out@ =~= old(out)@ + hex_text(part));
        i = i + 1;
    }
    assert(bytes@.take(i as int) =~= bytes@);
}

/// Appends bytes as a bracketed list of hexadecimal numbers.
pub fn push_hex_list(out: &mut String, bytes: &[u8])
    ensures
        final(out)@ == old(out)@ + hex_list(bytes@),
{
    out.append("[");
    let ghost head = out@;
    let mut i: usize = 0;
    assert(head + hex_items(bytes@.take(0)) =~= head);
    while i < bytes.len()
        invariant
            i <= bytes@.len(),
            out@ == head + hex_items(bytes@.take(i as int)),
        decreases bytes@.len() - i,
    {
        let ghost part = bytes@.take(i + 1);
        assert(part.drop_last() =~= bytes@.take(i as int));
        assert(part.last() == bytes@[i as int]);
        if i > 0 {
            out.append(", ");
        }
        push_byte_digits(out, bytes[i]);
        assert(out@ =~= head + hex_items(part));
        i = i + 1;
    }
    assert(bytes@.take(i as int) =~= bytes@);
    out.append("]");
    assert(out@ =~= old(out)@ + hex_list(bytes@));
}

} // verus!
