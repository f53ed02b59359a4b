//! The text of span ids: sixteen lower-case hexadecimal digits.

use vstd::prelude::*;
use vstd::string::StringExecFns;

verus! {

/// The lower-case hexadecimal digit for a value below 16.
pub open spec fn hex_lower(digit: int) -> char {
    if digit < 10 {
        (0x30 + digit) as u8 as char
    } else {
        (0x61 + digit - 10) as u8 as char
    }
}

/// The last `width` hexadecimal digits of `value`, the most significant
/// first, with leading zeros.
pub open spec fn hex_digits(value: nat, width: nat) -> Seq<char>
    decreases width,
{
    if width == 0 {
        Seq::empty()
    } else {
        hex_digits(value / 16, (width - 1) as nat).push(hex_lower((value % 16) as int))
    }
}

/// The text of a span id: its sixteen hexadecimal digits.
pub open spec fn span_id_text(id: u64) -> Seq<char> {
    hex_digits(id as nat, 16)
}

/// The text of an optional span id.
pub open spec fn opt_span_id_text(id: Option<u64>) -> Option<Seq<char>> {
    match id {
        Some(id) => Some(span_id_text(id)),
        None => None,
    }
}

/// 16 to the power of `width`.
pub open spec fn pow16(width: nat) -> nat
    decreases width,
{
    if width == 0 {
        1
    } else {
        16 * pow16((width - 1) as nat)
    }
}

/// Different digits are written differently.
pub proof fn lemma_hex_lower_injective(a: int, b: int)
    requires
        0 <= a < 16,
        0 <= b < 16,
        hex_lower(a) == hex_lower(b),
    ensures
        a == b,
{
    let x = if a < 10 {
        (0x30 + a) as u8
    } else {
        (0x61 + a - 10) as u8
    };
    let y = if b < 10 {
        (0x30 + b) as u8
    } else {
        (0x61 + b - 10) as u8
    };
    assert(x as char == y as char);
    assert(x as char as u8 == x);
    assert(y as char as u8 == y);
}

/// The digits of a number have the width that was asked for.
pub proof fn lemma_hex_digits_len(value: nat, width: nat)
    ensures
        hex_digits(value, width).len() == width,
    decreases width,
{
    if width > 0 {
        lemma_hex_digits_len(value / 16, (width - 1) as nat);
    }
}

/// Two numbers that fit the width and have the same digits are the same.
pub proof fn lemma_hex_digits_injective(a: nat, b: nat, width: nat)
    requires
        a < pow16(width),
        b < pow16(width),
        hex_digits(a, width) == hex_digits(b, width),
    ensures
        a == b,
    decreases width,
{
    if width > 0 {
        let w = (width - 1) as nat;
        let da = hex_digits(a / 16, w);
        let db = hex_digits(b / 16, w);
        let la = hex_lower((a % 16) as int);
        let lb = hex_lower((b % 16) as int);
        assert(da.push(la) == db.push(lb));
        lemma_hex_digits_len(a / 16, w);
        lemma_hex_digits_len(b / 16, w);
        assert(da.push(la)[w as int] == la);
        assert(db.push(lb)[w as int] == lb);
        assert(da =~= da.push(la).drop_last());
        assert(db =~= db.push(lb).drop_last());
        lemma_hex_lower_injective((a % 16) as int, (b % 16) as int);
        lemma_hex_digits_injective(a / 16, b / 16, w);
    }
}

/// Different span ids have different texts.
pub proof fn lemma_span_id_text_injective(a: u64, b: u64)
    requires
        span_id_text(a) == span_id_text(b),
    ensures
        a == b,
{
    assert(pow16(16) == 0x1_0000_0000_0000_0000) by {
        reveal_with_fuel(pow16, 17);
    }
    lemma_hex_digits_injective(a as nat, b as nat, 16);
}

/// The digit for a value below 16, as a string.
fn hex_digit(digit: u64) -> (text: &'static str)
    requires
        digit < 16,
    ensures
        text@ == seq![hex_lower(digit as int)],
{
    proof {
        reveal_strlit("0");
        reveal_strlit("1");
        reveal_strlit("2");
        reveal_strlit("3");
        reveal_strlit("4");
        reveal_strlit("5");
        reveal_strlit("6");
        reveal_strlit("7");
        reveal_strlit("8");
        reveal_strlit("9");
        reveal_strlit("a");
        reveal_strlit("b");
        reveal_strlit("c");
        reveal_strlit("d");
        reveal_strlit("e");
        reveal_strlit("f");
    }
    let text = if digit == 0 {
        "0"
    } else if digit == 1 {
        "1"
    } else if digit == 2 {
        "2"
    } else if digit == 3 {
        "3"
    } else if digit == 4 {
        "4"
    } else if digit == 5 {
        "5"
    } else if digit == 6 {
        "6"
    } else if digit == 7 {
        "7"
    } else if digit == 8 {
        "8"
    } else if digit == 9 {
        "9"
    } else if digit == 10 {
        "a"
    } else if digit == 11 {
        "b"
    } else if digit == 12 {
        "c"
    } else if digit == 13 {
        "d"
    } else if digit == 14 {
        "e"
    } else {
        "f"
    };
    assert(text@ =~= seq![hex_lower(digit as int)]);
    text
}

/// Writes the last `width` hexadecimal digits of `value`.
fn hex_string(value: u64, width: usize) -> (text: String)
    ensures
        text@ == hex_digits(value as nat, width as nat),
    decreases width,
{
    if width == 0 {
        String::new()
    } else {
        let mut text = hex_string(value / 16, width - 1);
        text.append(hex_digit(value % 16));
        assert(text@ =~= hex_digits(value as nat, width as nat));
        text
    }
}

/// Writes a span id as sixteen lower-case hexadecimal digits.
pub fn format_span_id(id: u64) -> (text: String)
    ensures
        text@ == span_id_text(id),
{
    hex_string(id, 16)
}

} // verus!
