//! Numbers in text form.

use vstd::prelude::*;
use vstd::string::*;

verus! {

/// The digits, in order.
pub open spec fn digits() -> Seq<char> {
    seq!['0', '1', '2', '3', '4', '5', '6', '7', '8', '9', 'a', 'b', 'c', 'd', 'e', 'f']
}

/// The digit for `d`, up to `f` for fifteen.
pub open spec fn digit_char(d: nat) -> char {
    digits()[d as int]
}

/// `n` in decimal notation.
pub open spec fn decimal_text(n: nat) -> Seq<char>
    decreases n,
{
    if n < 10 {
        seq![digit_char(n)]
    } else {
        decimal_text(n / 10).push(digit_char(n % 10))
    }
}

/// `n` in decimal notation, with a sign where it is negative.
pub open spec fn signed_text(n: int) -> Seq<char> {
    if n < 0 {
        seq!['-'] + decimal_text((-n) as nat)
    } else {
        decimal_text(n as nat)
    }
}

/// `byte` as two hexadecimal digits.
pub open spec fn hex_text(byte: u8) -> Seq<char> {
    seq![digit_char((byte / 16) as nat), digit_char((byte % 16) as nat)]
}

/// The digit for `d` as a string.
fn digit_str(d: u8) -> (s: &'static str)
    requires
        d < 16,
    ensures
        s@ == seq![digit_char(d as nat)],
{
    proof {
        reveal_strlit("0");
        reveal_strlit("1");
        reveal_strlit("2");
        reveal_strlit("3");
        reveal_strlit("4");
        reveal_strlit("5");
        reveal_strlit("6");
        reveal_strlit("7");
        reveal_strlit("8");
        reveal_strlit("9");
        reveal_strlit("a");
        reveal_strlit("b");
        reveal_strlit("c");
        reveal_strlit("d");
        reveal_strlit("e");
        reveal_strlit("f");
    }
    let s = match d {
        0 => "0",
        1 => "1",
        2 => "2",
        3 => "3",
        4 => "4",
        5 => "5",
        6 => "6",
        7 => "7",
        8 => "8",
        9 => "9",
        10 => "a",
        11 => "b",
        12 => "c",
        13 => "d",
        14 => "e",
        _ => "f",
    };
    assert(s@ =~= seq![digit_char(d as nat)]);
    s
}

/// Append `n` in decimal notation.
pub fn push_decimal(out: &mut String, n: u64)
    ensures
        final(out)@ == old(out)@ + decimal_text(n as nat),
    decreases n,
{
    let ghost before = out@;
    if n >= 10 {
        push_decimal(out, n / 10);
    }
    let digit = digit_str((n % 10) as u8);
    out.append(digit);
    assert(out@ =~= before + decimal_text(n as nat));
}

/// Append `n` in decimal notation, with a sign where it is negative.
pub fn push_signed(out: &mut String, n: i64)
    ensures
        final(out)@ == old(out)@ + signed_text(n as int),
{
    let ghost before = out@;
    if n < 0 {
        proof {
            reveal_strlit("-");
        }
        out.append("-");
        assert(out@ =~= before + seq!['-']);
        let magnitude: u64 = if n == i64::MIN {
            0x8000_0000_0000_0000
        } else {
            (-n) as u64
        };
        push_decimal(out, magnitude);
        assert(out@ =~= before + signed_text(n as int));
    } else {
        push_decimal(out, n as u64);
    }
}

/// Append `byte` as two hexadecimal digits.
pub fn push_hex(out: &mut String, byte: u8)
    ensures
        final(out)@ == old(out)@ + hex_text(byte),
{
    let ghost before = out@;
    out.append(digit_str(byte / 16));
    out.append(digit_str(byte % 16));
    assert(out@ =~= before + hex_text(byte));
}

/// The digits for upper-case hexadecimal notation.
pub open spec fn upper_digits() -> Seq<char> {
    seq!['0', '1', '2', '3', '4', '5', '6', '7', '8', '9', 'A', 'B', 'C', 'D', 'E', 'F']
}

/// `byte` as two upper-case hexadecimal digits.
pub open spec fn upper_hex_text(byte: u8) -> Seq<char> {
    seq![upper_digits()[byte as int / 16], upper_digits()[byte as int % 16]]
}

/// The upper-case digit for `d` as a string.
fn upper_digit_str(d: u8) -> (s: &'static str)
    requires
        d < 16,
    ensures
        s@ == seq![upper_digits()[d as int]],
{
    if d < 10 {
        return digit_str(d);
    }
    proof {
        reveal_strlit("A");
        reveal_strlit("B");
        reveal_strlit("C");
        reveal_strlit("D");
        reveal_strlit("E");
        reveal_strlit("F");
    }
    let s = match d {
        10 => "A",
        11 => "B",
        12 => "C",
        13 => "D",
        14 => "E",
        _ => "F",
    };
    assert(s@ =~= seq![upper_digits()[d as int]]);
    s
}

/// Append `byte` as two upper-case hexadecimal digits.
pub fn push_upper_hex(out: &mut String, byte: u8)
    ensures
        final(out)@ == old(out)@ + upper_hex_text(byte),
{
    let ghost before = out@;
    out.append(upper_digit_str(byte / 16));
    out.append(upper_digit_str(byte % 16));
    assert(out@ =~= before + upper_hex_text(byte));
}

/// A hardware address: six bytes in hexadecimal notation, with colons between
/// them.
pub open spec fn mac_text(mac: Seq<u8>) -> Seq<char> {
    upper_hex_text(mac[0]) + seq![':'] + upper_hex_text(mac[1]) + seq![':'] + upper_hex_text(mac[2])
        + seq![':'] + upper_hex_text(mac[3]) + seq![':'] + upper_hex_text(mac[4]) + seq![':']
        + upper_hex_text(mac[5])
}

/// Append a hardware address.
pub fn push_mac(out: &mut String, mac: &[u8; 6])
    ensures
        final(out)@ == old(out)@ + mac_text(mac@),
{
    let ghost before = out@;
    proof {
        reveal_strlit(":");
        assert(":"@ =~= seq![':']);
    }
    push_upper_hex(out, mac[0]);
    out.append(":");
    push_upper_hex(out, mac[1]);
    out.append(":");
    push_upper_hex(out, mac[2]);
    out.append(":");
    push_upper_hex(out, mac[3]);
    out.append(":");
    push_upper_hex(out, mac[4]);
    out.append(":");
    push_upper_hex(out, mac[5]);
    assert(out@ =~= before + mac_text(mac@));
}

/// The number that a digit stands for, of either case.
pub open spec fn digit_value(c: char) -> int {
    if '0' <= c <= '9' {
        c as int - '0' as int
    } else if 'a' <= c <= 'f' {
        c as int - 'a' as int + 10
    } else {
        c as int - 'A' as int + 10
    }
}

/// The number that decimal digits stand for.
pub open spec fn decimal_value(text: Seq<char>) -> int
    decreases text.len(),
{
    if text.len() == 0 {
        0
    } else {
        decimal_value(text.drop_last()) * 10 + digit_value(text.last())
    }
}

/// The digits stand for the numbers from 0 to 15.
pub proof fn law_digits_have_their_values(d: nat)
    requires
        d < 16,
    ensures
        digit_value(digit_char(d)) == d,
        digit_value(upper_digits()[d as int]) == d,
        d >= 10 ==> 'a' <= digit_char(d) <= 'f',
        d >= 10 ==> 'A' <= upper_digits()[d as int] <= 'F',
        d < 10 ==> '0' <= digit_char(d) <= '9',
{
}

/// A number in decimal notation stands for that number, is written with decimal
/// digits only, and begins with a zero only where it is zero.
pub proof fn law_decimal_text_is_the_number(n: nat)
    ensures
        decimal_value(decimal_text(n)) == n,
        decimal_text(n).len() > 0,
        forall|i: int|
            0 <= i < decimal_text(n).len() ==> '0' <= (#[trigger] decimal_text(n)[i]) <= '9',
        decimal_text(n)[0] == '0' ==> n == 0,
    decreases n,
{
    reveal_with_fuel(decimal_value, 2);
    law_digits_have_their_values(n % 10);
    if n < 10 {
        law_digits_have_their_values(n);
        assert(decimal_text(n).drop_last() =~= Seq::<char>::empty());
    } else {
        law_decimal_text_is_the_number(n / 10);
        assert(decimal_text(n).drop_last() =~= decimal_text(n / 10));
    }
}

/// A negative number is written with a sign in front of its magnitude, any other
/// without.
pub proof fn law_signed_text_is_the_number(n: int)
    ensures
        n >= 0 ==> decimal_value(signed_text(n)) == n && signed_text(n)[0] != '-',
        n < 0 ==> signed_text(n)[0] == '-' && decimal_value(signed_text(n).drop_first()) == -n,
{
    if n < 0 {
        law_decimal_text_is_the_number((-n) as nat);
        assert(signed_text(n).drop_first() =~= decimal_text((-n) as nat));
    } else {
        law_decimal_text_is_the_number(n as nat);
    }
}

/// A byte in hexadecimal notation is two digits, the high one first.
pub proof fn law_hex_text_is_the_byte(byte: u8)
    ensures
        hex_text(byte).len() == 2,
        digit_value(hex_text(byte)[0]) * 16 + digit_value(hex_text(byte)[1]) == byte,
        upper_hex_text(byte).len() == 2,
        digit_value(upper_hex_text(byte)[0]) * 16 + digit_value(upper_hex_text(byte)[1]) == byte,
{
    law_digits_have_their_values((byte / 16) as nat);
    law_digits_have_their_values((byte % 16) as nat);
}

/// A hardware address is written byte by byte, the first one first, with colons
/// between the bytes.
pub proof fn law_mac_text_is_the_address(mac: Seq<u8>, i: int)
    requires
        mac.len() == 6,
        0 <= i < 6,
    ensures
        mac_text(mac).len() == 17,
        mac_text(mac).subrange(3 * i, 3 * i + 2) == upper_hex_text(mac[i]),
        i < 5 ==> mac_text(mac)[3 * i + 2] == ':',
{
    let text = mac_text(mac);
    if i == 0 {
        assert(text.subrange(0, 2) =~= upper_hex_text(mac[0]));
    } else if i == 1 {
        assert(text.subrange(3, 5) =~= upper_hex_text(mac[1]));
    } else if i == 2 {
        assert(text.subrange(6, 8) =~= upper_hex_text(mac[2]));
    } else if i == 3 {
        assert(text.subrange(9, 11) =~= upper_hex_text(mac[3]));
    } else if i == 4 {
        assert(text.subrange(12, 14) =~= upper_hex_text(mac[4]));
    } else {
        assert(text.subrange(15, 17) =~= upper_hex_text(mac[5]));
    }
}

} // verus!
