//! Bytes as hexadecimal text: two upper-case digits for each byte, one space
//! between bytes, and the way back.

use vstd::prelude::*;

verus! {

/// The digit for `nibble`, which is less than 16.
pub open spec fn hex_digit(nibble: int) -> char {
    if nibble < 10 {
        (('0' as u8) + nibble) as u8 as char
    } else {
        (('A' as u8) + nibble - 10) as u8 as char
    }
}

/// What the digit `c` stands for; `None` where `c` is no upper-case
/// hexadecimal digit.
pub open spec fn hex_value(c: char) -> Option<int> {
    if '0' <= c <= '9' {
        Some(c as u8 - '0' as u8)
    } else if 'A' <= c <= 'F' {
        Some(c as u8 - 'A' as u8 + 10)
    } else {
        None
    }
}

/// The character at place `k` of the text for `bytes`: the places go in
/// threes, high digit, low digit and space.
pub open spec fn hex_char(bytes: Seq<u8>, k: int) -> char {
    if k % 3 == 0 {
        hex_digit(bytes[k / 3] as int / 16)
    } else if k % 3 == 1 {
        hex_digit(bytes[k / 3] as int % 16)
    } else {
        ' '
    }
}

/// The number of characters in the text for `count` bytes.
pub open spec fn hex_len(count: nat) -> nat {
    if count == 0 {
        0
    } else {
        (3 * count - 1) as nat
    }
}

/// `bytes` as text: `[0x41, 0x0A]` gives `41 0A`.
pub open spec fn hex_text(bytes: Seq<u8>) -> Seq<char> {
    Seq::new(hex_len(bytes.len()), |k: int| hex_char(bytes, k))
}

/// The byte written at places `3 * i` and `3 * i + 1` of `text`.
pub open spec fn byte_at(text: Seq<char>, i: int) -> u8 {
    (hex_value(text[3 * i]).unwrap() * 16 + hex_value(text[3 * i + 1]).unwrap()) as u8
}

/// Whether `text` has the shape of hexadecimal text: digits in pairs with
/// one space between pairs.
pub open spec fn is_hex_text(text: Seq<char>) -> bool {
    &&& text.len() == 0 || text.len() % 3 == 2
    &&& forall|k: int|
        0 <= k < text.len() ==> if k % 3 == 2 {
            text[k] == ' '
        } else {
            hex_value(#[trigger] text[k]) is Some
        }
}

/// The bytes that `text` stands for, where it has the shape of hexadecimal
/// text.
pub open spec fn hex_bytes(text: Seq<char>) -> Option<Seq<u8>> {
    if is_hex_text(text) {
        Some(Seq::new(((text.len() + 1) / 3) as nat, |i: int| byte_at(text, i)))
    } else {
        None
    }
}

/// A digit stands for the nibble that it was made from.
pub proof fn lemma_hex_digit_value(nibble: int)
    requires
        0 <= nibble < 16,
    ensures
        hex_value(hex_digit(nibble)) == Some(nibble),
{
}

/// A digit is made from the nibble that it stands for.
pub proof fn lemma_hex_value_digit(c: char)
    requires
        hex_value(c) is Some,
    ensures
        0 <= hex_value(c).unwrap() < 16,
        hex_digit(hex_value(c).unwrap()) == c,
{
}

/// Reading hexadecimal text gives back the bytes that it was written from.
pub proof fn lemma_hex_round_trip(bytes: Seq<u8>)
    ensures
        is_hex_text(hex_text(bytes)),
        hex_bytes(hex_text(bytes)) == Some(bytes),
{
    let text = hex_text(bytes);
    assert forall|k: int| 0 <= k < text.len() implies if k % 3 == 2 {
        text[k] == ' '
    } else {
        hex_value(#[trigger] text[k]) is Some
    } by {
        if k % 3 != 2 {
            let b = bytes[k / 3] as int;
            lemma_hex_digit_value(b / 16);
            lemma_hex_digit_value(b % 16);
        }
    }
    let back = hex_bytes(text).unwrap();
    assert(back.len() == bytes.len());
    assert forall|i: int| 0 <= i < bytes.len() implies back[i] == bytes[i] by {
        let b = bytes[i] as int;
        lemma_hex_digit_value(b / 16);
        lemma_hex_digit_value(b % 16);
        assert(text[3 * i] == hex_digit(b / 16));
        assert(text[3 * i + 1] == hex_digit(b % 16));
    }
    assert(back =~= bytes);
}

/// Text with the shape of hexadecimal text is the text of the bytes that it
/// stands for, and of no others.
pub proof fn lemma_hex_text_of_bytes(text: Seq<char>)
    requires
        is_hex_text(text),
    ensures
        hex_text(hex_bytes(text).unwrap()) == text,
{
    let bytes = hex_bytes(text).unwrap();
    let again = hex_text(bytes);
    assert(again.len() == text.len());
    assert forall|k: int| 0 <= k < text.len() implies again[k] == text[k] by {
        if k % 3 != 2 {
            let i = k / 3;
            lemma_hex_value_digit(text[3 * i]);
            lemma_hex_value_digit(text[3 * i + 1]);
            let hi = hex_value(text[3 * i]).unwrap();
            let lo = hex_value(text[3 * i + 1]).unwrap();
            assert(bytes[i] == hi * 16 + lo);
        }
    }
    assert(again =~= text);
}

/// Different bytes have different texts.
pub proof fn lemma_hex_text_injective(a: Seq<u8>, b: Seq<u8>)
    requires
        hex_text(a) == hex_text(b),
    ensures
        a == b,
{
    lemma_hex_round_trip(a);
    lemma_hex_round_trip(b);
}

/// The digit for `nibble`.
fn digit(nibble: u8) -> (c: char)
    requires
        nibble < 16,
    ensures
        c == hex_digit(nibble as int),
{
    if nibble < 10 {
        (48u8 + nibble) as char
    } else {
        (65u8 + (nibble - 10)) as char
    }
}

/// What the digit `c` stands for.
fn digit_value(c: char) -> (value: Option<u8>)
    ensures
        match value {
            Some(v) => hex_value(c) == Some(v as int),
            None => hex_value(c) is None,
        },
{
    if '0' <= c && c <= '9' {
        Some(c as u8 - 48u8)
    } else if 'A' <= c && c <= 'F' {
        Some(c as u8 - 65u8 + 10)
    } else {
        None
    }
}

/// Writes `bytes` as hexadecimal text.
pub fn to_hex(bytes: &[u8]) -> (text: String)
    ensures
        text@ == hex_text(bytes@),
{
    let mut text = String::new();
    let mut i: usize = 0;
    while i < bytes.len()
        invariant
            i <= bytes.len(),
            text@ == hex_text(bytes@.take(i as int)),
        decreases bytes.len() - i,
    {
        if i > 0 {
            text.push(' ');
        }
        let b = bytes[i];
        text.push(digit(b / 16));
        text.push(digit(b % 16));
        i += 1;
        assert(text@ =~= hex_text(bytes@.take(i as int)));
    }
    assert(bytes@.take(i as int) =~= bytes@);
    text
}

/// Reads hexadecimal text back: the bytes, or `None` where `text` does not
/// have the shape that `to_hex` writes.
pub fn parse_hex(text: &str) -> (bytes: Option<Vec<u8>>)
    ensures
        match bytes {
            Some(v) => hex_bytes(text@) == Some(v@),
            None => hex_bytes(text@) is None,
        },
{
    let mut out: Vec<u8> = Vec::new();
    let mut phase: u8 = 0;
    let mut high: u8 = 0;
    for c in it: text.chars()
        invariant
            it.seq() == text@,
            phase == it.index() % 3,
            out@.len() == (it.index() + 1) / 3,
            forall|k: int|
                0 <= k < it.index() ==> if k % 3 == 2 {
                    text@[k] == ' '
                } else {
                    hex_value(#[trigger] text@[k]) is Some
                },
            forall|i: int| 0 <= i < out@.len() ==> out@[i] == byte_at(text@, i),
            phase == 1 ==> hex_value(text@[it.index() - 1]) == Some(high as int),
    {
        let ghost at = it.index();
        if phase == 2 {
            if c != ' ' {
                assert(text@[at] != ' ');
                return None;
            }
            phase = 0;
        } else {
            match digit_value(c) {
                Some(v) => {
                    if phase == 0 {
                        high = v;
                        phase = 1;
                    } else {
                        out.push(high * 16 + v);
                        phase = 2;
                    }
                },
                None => {
                    assert(hex_value(text@[at]) is None);
                    return None;
                },
            }
        }
    }
    if phase == 2 || text.unicode_len() == 0 {
        assert(out@ =~= hex_bytes(text@).unwrap());
        Some(out)
    } else {
        None
    }
}

} // verus!
