//! Hexadecimal text: what the encoder writes and what the decoder reads.

use vstd::prelude::*;

verus! {

/// The lower-case digit of a value below sixteen.
pub open spec fn hex_digit(nibble: int) -> char {
    seq!['0', '1', '2', '3', '4', '5', '6', '7', '8', '9', 'a', 'b', 'c', 'd', 'e', 'f'][nibble]
}

/// The value of a digit of either case; -1 for any other character.
pub open spec fn hex_value(c: char) -> int {
    let code = c as int;
    if 48 <= code <= 57 {
        code - 48
    } else if 97 <= code <= 102 {
        code - 87
    } else if 65 <= code <= 70 {
        code - 55
    } else {
        -1
    }
}

/// Two lower-case digits for each byte, the high half first.
pub open spec fn hex_of(data: Seq<u8>) -> Seq<char> {
    Seq::new(
        2 * data.len(),
        |i: int|
            if i % 2 == 0 {
                hex_digit(data[i / 2] as int / 16)
            } else {
                hex_digit(data[i / 2] as int % 16)
            },
    )
}

/// An even number of characters, each a digit.
pub open spec fn is_hex(text: Seq<char>) -> bool {
    text.len() % 2 == 0 && forall|i: int| 0 <= i < text.len() ==> hex_value(#[trigger] text[i]) >= 0
}

/// The bytes that hexadecimal text stands for.
pub open spec fn bytes_of_hex(text: Seq<char>) -> Seq<u8> {
    Seq::new(
        text.len() / 2,
        |i: int| (hex_value(text[2 * i]) * 16 + hex_value(text[2 * i + 1])) as u8,
    )
}

pub proof fn lemma_hex_digit_value(nibble: int)
    requires
        0 <= nibble < 16,
    ensures
        hex_value(hex_digit(nibble)) == nibble,
{
    let table = seq![
        '0',
        '1',
        '2',
        '3',
        '4',
        '5',
        '6',
        '7',
        '8',
        '9',
        'a',
        'b',
        'c',
        'd',
        'e',
        'f',
    ];
    assert(table[0] == '0' && table[1] == '1' && table[2] == '2' && table[3] == '3');
    assert(table[4] == '4' && table[5] == '5' && table[6] == '6' && table[7] == '7');
    assert(table[8] == '8' && table[9] == '9' && table[10] == 'a' && table[11] == 'b');
    assert(table[12] == 'c' && table[13] == 'd' && table[14] == 'e' && table[15] == 'f');
}

/// Encoded bytes are hexadecimal text, and decoding gives the bytes back.
pub proof fn lemma_hex_round_trip(data: Seq<u8>)
    ensures
        is_hex(hex_of(data)),
        hex_of(data).len() == 2 * data.len(),
        bytes_of_hex(hex_of(data)) == data,
{
    let text = hex_of(data);
    assert forall|i: int| 0 <= i < text.len() implies hex_value(#[trigger] text[i]) >= 0 by {
        let byte = data[i / 2] as int;
        lemma_hex_digit_value(byte / 16);
        lemma_hex_digit_value(byte % 16);
    }
    let back = bytes_of_hex(text);
    assert forall|k: int| 0 <= k < data.len() implies back[k] == data[k] by {
        let byte = data[k] as int;
        lemma_hex_digit_value(byte / 16);
        lemma_hex_digit_value(byte % 16);
        assert((2 * k) % 2 == 0 && (2 * k) / 2 == k);
        assert((2 * k + 1) % 2 == 1 && (2 * k + 1) / 2 == k);
        assert(text[2 * k] == hex_digit(byte / 16));
        assert(text[2 * k + 1] == hex_digit(byte % 16));
    }
    assert(back =~= data);
}

/// `hex::encode`: two lower-case hexadecimal digits for each byte, in order,
/// the high half of a byte first.
#[verifier::external_body]
pub(crate) fn hex_encode(data: &Vec<u8>) -> (text: String)
    ensures
        text@ == hex_of(data@),
{
    hex::encode(data)
}

/// `hex::decode`: succeeds on an even number of hexadecimal digits of either
/// case, and then returns one byte for each pair; fails on anything else.
#[verifier::external_body]
pub(crate) fn hex_decode(text: &str) -> (bytes: Option<Vec<u8>>)
    ensures
        bytes.is_some() == is_hex(text@),
        bytes.is_some() ==> bytes.unwrap()@ == bytes_of_hex(text@),
{
    hex::decode(text).ok()
}

} // verus!
