//! Base64 text of binary content: the standard alphabet, padded with `=`.

use vstd::prelude::*;

verus! {

/// The character that stands for a six-bit value in the standard alphabet:
/// `A`..`Z`, `a`..`z`, `0`..`9`, `+`, `/`.
pub open spec fn alphabet_char(value: int) -> char {
    if value < 26 {
        (value + 65) as u8 as char
    } else if value < 52 {
        (value + 71) as u8 as char
    } else if value < 62 {
        (value - 4) as u8 as char
    } else if value == 62 {
        '+'
    } else {
        '/'
    }
}

/// The six-bit value that a character of the standard alphabet stands for;
/// 0 for any other character.
pub open spec fn alphabet_value(c: char) -> int {
    let code = c as int;
    if 65 <= code <= 90 {
        code - 65
    } else if 97 <= code <= 122 {
        code - 71
    } else if 48 <= code <= 57 {
        code + 4
    } else if c == '+' {
        62
    } else if c == '/' {
        63
    } else {
        0
    }
}

/// The byte at position `k`, or 0 past the end.
pub open spec fn byte_or_zero(bytes: Seq<u8>, k: int) -> int {
    if 0 <= k < bytes.len() {
        bytes[k] as int
    } else {
        0
    }
}

/// The `j`-th group of six bits of `bytes`, read as one string of bits, most
/// significant bit first, and filled up with zero bits.
pub open spec fn sextet(bytes: Seq<u8>, j: int) -> int {
    let first = 3 * (j / 4);
    let b0 = byte_or_zero(bytes, first);
    let b1 = byte_or_zero(bytes, first + 1);
    let b2 = byte_or_zero(bytes, first + 2);
    if j % 4 == 0 {
        b0 / 4
    } else if j % 4 == 1 {
        (b0 % 4) * 16 + b1 / 16
    } else if j % 4 == 2 {
        (b1 % 16) * 4 + b2 / 64
    } else {
        b2 % 64
    }
}

/// The length of the base64 text of `n` bytes: four characters for every
/// three bytes or part thereof.
pub open spec fn base64_len(n: nat) -> nat {
    4 * ((n + 2) / 3) as nat
}

/// The base64 text of `bytes`: one alphabet character for each group of six
/// bits that holds a bit of the input, then `=` up to a multiple of four
/// characters.
pub open spec fn base64_text(bytes: Seq<u8>) -> Seq<char> {
    Seq::new(
        base64_len(bytes.len()),
        |j: int|
            if 3 * j < 4 * bytes.len() {
                alphabet_char(sextet(bytes, j))
            } else {
                '='
            },
    )
}

/// The number of `=` characters at the end of `text`, two at most.
pub open spec fn padding_len(text: Seq<char>) -> nat {
    if text.len() >= 1 && text[text.len() - 1] == '=' {
        if text.len() >= 2 && text[text.len() - 2] == '=' {
            2
        } else {
            1
        }
    } else {
        0
    }
}

/// The value of the character at position `k`, or 0 past the end.
pub open spec fn value_or_zero(text: Seq<char>, k: int) -> int {
    if 0 <= k < text.len() {
        alphabet_value(text[k])
    } else {
        0
    }
}

/// The `i`-th byte that `text` stands for.
pub open spec fn octet(text: Seq<char>, i: int) -> u8 {
    let first = 4 * (i / 3);
    let s0 = value_or_zero(text, first);
    let s1 = value_or_zero(text, first + 1);
    let s2 = value_or_zero(text, first + 2);
    let s3 = value_or_zero(text, first + 3);
    if i % 3 == 0 {
        (s0 * 4 + s1 / 16) as u8
    } else if i % 3 == 1 {
        ((s1 % 16) * 16 + s2 / 4) as u8
    } else {
        ((s2 % 4) * 64 + s3) as u8
    }
}

/// The bytes that a padded base64 text stands for: three for every four
/// characters, less one for each `=` at its end.
pub open spec fn base64_bytes(text: Seq<char>) -> Seq<u8> {
    Seq::new((3 * (text.len() / 4) - padding_len(text)) as nat, |i: int| octet(text, i))
}

/// Decoding undoes encoding: the bytes that the base64 text of `bytes`
/// stands for are `bytes` again.
pub proof fn lemma_base64_round_trip(bytes: Seq<u8>)
    ensures
        base64_bytes(base64_text(bytes)) == bytes,
{
    let text = base64_text(bytes);
    assert forall|i: int| 0 <= i < bytes.len() implies base64_bytes(text)[i] == bytes[i] by {
        // Byte `i` is spread over characters of the group that starts at
        // `first`, and each of them stands for the sextet it was made from.
        let first = 4 * (i / 3);
        assert(value_or_zero(text, first) == sextet(bytes, first));
        assert(value_or_zero(text, first + 1) == sextet(bytes, first + 1));
    }
}

/// The base64 text of `data`, as `base64::encode` writes it: the standard
/// alphabet with `=` padding. The contract states the whole text. Left out
/// are the lengths whose text would be longer than `usize::MAX`, on which
/// `base64::encode` panics.
#[verifier::external_body]
fn standard_encode(data: &[u8]) -> (text: String)
    requires
        base64_len(data@.len()) <= usize::MAX,
    ensures
        text@ == base64_text(data@),
{
    base64::encode(data)
}

/// The base64 text of `data`, or `None` where that text would be longer
/// than a string can be.
pub fn encode_base64(data: &[u8]) -> (encoded: Option<String>)
    ensures
        encoded matches Some(text) ==> text@ == base64_text(data@),
        encoded is Some <==> base64_len(data@.len()) <= usize::MAX,
{
    let rest: usize = if data.len() % 3 == 0 {
        0
    } else {
        1
    };
    let groups: usize = data.len() / 3 + rest;
    assert(groups == (data@.len() + 2) / 3);
    if groups <= usize::MAX / 4 {
        Some(standard_encode(data))
    } else {
        None
    }
}

} // verus!
