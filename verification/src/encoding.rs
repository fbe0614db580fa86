//! The text forms under which addresses are stored and ordered.

use crate::account::Address;
use vstd::prelude::*;
use vstd::string::StringExecFns;

verus! {

/// The lower-case hexadecimal digit of a value below sixteen; `'0'` for any
/// other value.
pub open spec fn hex_digit(nibble: u8) -> char {
    if nibble <= 9 {
        ((0x30 + nibble) as u8) as char
    } else if nibble <= 15 {
        ((0x61 + nibble - 10) as u8) as char
    } else {
        '0'
    }
}

/// The hexadecimal digits of a byte string: two for each byte, the high half first.
pub open spec fn hex_of(bytes: Seq<u8>) -> Seq<char> {
    Seq::new(
        2 * bytes.len(),
        |i: int|
            if i % 2 == 0 {
                hex_digit(bytes[i / 2] >> 4)
            } else {
                hex_digit(bytes[i / 2] & 0x0f)
            },
    )
}

/// The lower-case hexadecimal digit of a value below sixteen.
pub fn hex_char(nibble: u8) -> (c: char)
    ensures
        c == hex_digit(nibble),
{
    match nibble {
        0 => '0',
        1 => '1',
        2 => '2',
        3 => '3',
        4 => '4',
        5 => '5',
        6 => '6',
        7 => '7',
        8 => '8',
        9 => '9',
        10 => 'a',
        11 => 'b',
        12 => 'c',
        13 => 'd',
        14 => 'e',
        15 => 'f',
        _ => '0',
    }
}

/// Appends a character to a string.
///
/// Calls `String::push`, which appends the given character to the end of
/// the string.
#[verifier::external_body]
fn push_char(text: &mut String, c: char)
    ensures
        final(text)@ == old(text)@.push(c),
{
    text.push(c)
}

/// The hexadecimal digits of a byte string.
pub fn hex_encode(bytes: &[u8]) -> (text: String)
    ensures
        text@ == hex_of(bytes@),
{
    let mut result = String::new();
    let mut i: usize = 0;
    while i < bytes.len()
        invariant
            0 <= i <= bytes@.len(),
            result@ == hex_of(bytes@.take(i as int)),
        decreases bytes@.len() - i,
    {
        let byte = bytes[i];
        let ghost before = result@;
        push_char(&mut result, hex_char(byte >> 4));
        push_char(&mut result, hex_char(byte & 0x0f));
        proof {
            let upto = bytes@.take(i as int);
            let next = bytes@.take(i + 1);
            assert(next =~= upto.push(byte));
            assert(result@ =~= hex_of(next));
        }
        i += 1;
    }
    assert(bytes@.take(i as int) =~= bytes@);
    result
}

/// The text under which an address is stored: its bytes in hexadecimal.
pub fn key_to_str(key: &Address) -> (text: String)
    ensures
        text@ == hex_of(key.bytes@),
{
    hex_encode(key.bytes.as_slice())
}

/// The digit of the base-64 alphabet for a value below sixty-four.
pub open spec fn base64_digit(value: u8) -> char {
    if value < 26 {
        ((0x41 + value) as u8) as char
    } else if value < 52 {
        ((0x61 + value - 26) as u8) as char
    } else if value < 62 {
        ((0x30 + value - 52) as u8) as char
    } else if value == 62 {
        '+'
    } else {
        '/'
    }
}

/// The byte at a place of a byte string, or zero beyond its end.
pub open spec fn byte_or_zero(bytes: Seq<u8>, i: int) -> u8 {
    if 0 <= i < bytes.len() {
        bytes[i]
    } else {
        0
    }
}

/// The character at a place of the base-64 form of a byte string: every
/// three bytes give four digits of six bits each, and a last group of one
/// or two bytes is filled up with `=`.
pub open spec fn base64_at(bytes: Seq<u8>, i: int) -> char {
    let group = i / 4;
    let b0 = byte_or_zero(bytes, 3 * group);
    let b1 = byte_or_zero(bytes, 3 * group + 1);
    let b2 = byte_or_zero(bytes, 3 * group + 2);
    if i % 4 == 0 {
        base64_digit(b0 >> 2)
    } else if i % 4 == 1 {
        base64_digit(((b0 & 0x03) << 4) | (b1 >> 4))
    } else if i % 4 == 2 {
        if 3 * group + 1 < bytes.len() {
            base64_digit(((b1 & 0x0f) << 2) | (b2 >> 6))
        } else {
            '='
        }
    } else {
        if 3 * group + 2 < bytes.len() {
            base64_digit(b2 & 0x3f)
        } else {
            '='
        }
    }
}

/// The base-64 form of a byte string, with padding.
pub open spec fn base64_of(bytes: Seq<u8>) -> Seq<char> {
    Seq::new(4 * ((bytes.len() + 2) / 3) as nat, |i: int| base64_at(bytes, i))
}

/// The digit of the base-64 alphabet for a value below sixty-four.
fn base64_char(value: u8) -> (c: char)
    requires
        value < 64,
    ensures
        c == base64_digit(value),
{
    if value < 26 {
        (0x41 + value) as char
    } else if value < 52 {
        (0x61 + value - 26) as char
    } else if value < 62 {
        (0x30 + value - 52) as char
    } else if value == 62 {
        '+'
    } else {
        '/'
    }
}

/// Appends the four characters of one group of up to three bytes.
fn push_group(result: &mut String, bytes: &[u8], i: usize)
    requires
        i < bytes@.len(),
        i % 3 == 0,
        old(result)@.len() == 4 * (i / 3),
        forall|j: int| 0 <= j < old(result)@.len() ==> old(result)@[j] == base64_at(bytes@, j),
    ensures
        final(result)@.len() == old(result)@.len() + 4,
        forall|j: int| 0 <= j < final(result)@.len() ==> final(result)@[j] == base64_at(bytes@, j),
{
    let n = bytes.len();
    let b0 = bytes[i];
    let b1 = if n - i > 1 {
        bytes[i + 1]
    } else {
        0
    };
    let b2 = if n - i > 2 {
        bytes[i + 2]
    } else {
        0
    };
    let ghost before = result@;
    assert(b0 >> 2 < 64) by (bit_vector);
    assert(((b0 & 0x03) << 4) | (b1 >> 4) < 64) by (bit_vector);
    assert(((b1 & 0x0f) << 2) | (b2 >> 6) < 64) by (bit_vector);
    assert(b2 & 0x3f < 64) by (bit_vector);
    push_char(result, base64_char(b0 >> 2));
    push_char(result, base64_char(((b0 & 0x03) << 4) | (b1 >> 4)));
    if n - i > 1 {
        push_char(result, base64_char(((b1 & 0x0f) << 2) | (b2 >> 6)));
    } else {
        push_char(result, '=');
    }
    if n - i > 2 {
        push_char(result, base64_char(b2 & 0x3f));
    } else {
        push_char(result, '=');
    }
    proof {
        let group = (i / 3) as int;
        assert(i == 3 * group);
        assert forall|j: int| 0 <= j < result@.len() implies result@[j] == base64_at(
            bytes@,
            j,
        ) by {
            if j >= before.len() {
                assert(j / 4 == group);
            } else {
                assert(result@[j] == before[j]);
            }
        }
    }
}

/// The base-64 form of a byte string, with padding.
pub fn base64_encode(bytes: &[u8]) -> (text: String)
    ensures
        text@ == base64_of(bytes@),
{
    let n = bytes.len();
    let mut result = String::new();
    let mut i: usize = 0;
    while n - i >= 3
        invariant
            n == bytes@.len(),
            0 <= i <= n,
            i % 3 == 0,
            result@.len() == 4 * (i / 3),
            forall|j: int| 0 <= j < result@.len() ==> result@[j] == base64_at(bytes@, j),
        decreases n - i,
    {
        push_group(&mut result, bytes, i);
        i += 3;
    }
    if i < n {
        push_group(&mut result, bytes, i);
    }
    assert(result@ =~= base64_of(bytes@));
    result
}

/// The text under which an allowance is stored: the owner's form, a low
/// line, the spender's form.
pub fn allowance_key(owner: &Address, spender: &Address) -> (text: String)
    ensures
        text@ == hex_of(owner.bytes@).push('_') + hex_of(spender.bytes@),
{
    let mut key = key_to_str(owner);
    push_char(&mut key, '_');
    let tail = key_to_str(spender);
    key.append(tail.as_str());
    key
}

} // verus!
