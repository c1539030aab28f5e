//! Hex text: the form in which keys, ciphertexts and tags arrive.

use crate::error::DenyReason;
use vstd::prelude::*;
use vstd::string::*;
use vstd::utf8::*;

verus! {

/// The value of a hex digit given by its ASCII code, in either case.
pub open spec fn hex_digit_value(code: u8) -> Option<u8> {
    if 0x30 <= code <= 0x39 {
        Some((code - 0x30) as u8)
    } else if 0x41 <= code <= 0x46 {
        Some((code - 0x41 + 10) as u8)
    } else if 0x61 <= code <= 0x66 {
        Some((code - 0x61 + 10) as u8)
    } else {
        None
    }
}

/// Whether `text` is hex: an even number of hex digits.
pub open spec fn is_hex(text: Seq<u8>) -> bool {
    &&& text.len() % 2 == 0
    &&& forall|i: int| 0 <= i < text.len() ==> hex_digit_value(#[trigger] text[i]) is Some
}

/// The byte that the two hex digits `high` and `low` spell.
pub open spec fn hex_pair_value(high: u8, low: u8) -> u8 {
    (16 * hex_digit_value(high).unwrap_or(0) + hex_digit_value(low).unwrap_or(0)) as u8
}

/// The bytes that the hex text `text` spells, two digits to a byte.
pub open spec fn hex_value(text: Seq<u8>) -> Seq<u8> {
    Seq::new(text.len() / 2, |i: int| hex_pair_value(text[2 * i], text[2 * i + 1]))
}

/// The bytes that `text` spells, if it is hex.
pub open spec fn hex_decoded(text: Seq<u8>) -> Option<Seq<u8>> {
    if is_hex(text) {
        Some(hex_value(text))
    } else {
        None
    }
}

/// The `n` bytes that `text` spells, if it is hex of exactly `2 * n` digits.
pub open spec fn hex_decoded_exact(text: Seq<u8>, n: nat) -> Option<Seq<u8>> {
    if is_hex(text) && text.len() == 2 * n {
        Some(hex_value(text))
    } else {
        None
    }
}

/// The hex digit for a value below 16, in upper or lower case.
pub open spec fn hex_char(value: u8, upper: bool) -> char {
    if value < 10 {
        (0x30 + value) as char
    } else if upper {
        (0x41 + value - 10) as char
    } else {
        (0x61 + value - 10) as char
    }
}

/// The hex text of `bytes`: two digits to a byte, the high one first.
pub open spec fn hex_text(bytes: Seq<u8>, upper: bool) -> Seq<char> {
    Seq::new(
        2 * bytes.len(),
        |k: int|
            if k % 2 == 0 {
                hex_char(bytes[k / 2] / 16, upper)
            } else {
                hex_char(bytes[k / 2] % 16, upper)
            },
    )
}

#[verifier::external_type_specification]
#[verifier::external_body]
pub struct ExFromHexError(hex::FromHexError);

/// `hex::decode`. It succeeds on an even number of hex digits of either
/// case and on nothing else, and then returns one byte for each two digits:
/// sixteen times the value of the first plus the value of the second.
#[verifier::external_body]
fn hex_decode(text: &[u8]) -> (decoded: Result<Vec<u8>, hex::FromHexError>)
    ensures
        decoded is Ok <==> is_hex(text@),
        decoded matches Ok(bytes) ==> bytes@ == hex_value(text@),
{
    hex::decode(text)
}

/// Decodes hex text of any even length.
pub fn decode_hex(text: &str) -> (decoded: Result<Vec<u8>, DenyReason>)
    ensures
        match decoded {
            Ok(bytes) => hex_decoded(encode_utf8(text@)) == Some(bytes@),
            Err(reason) => reason == DenyReason::MalformedInput && hex_decoded(encode_utf8(text@))
                is None,
        },
{
    match hex_decode(text.as_bytes()) {
        Ok(bytes) => Ok(bytes),
        Err(_) => Err(DenyReason::MalformedInput),
    }
}

/// Decodes hex text that must spell exactly `N` bytes.
pub fn decode_hex_array<const N: usize>(text: &str) -> (decoded: Result<[u8; N], DenyReason>)
    ensures
        match decoded {
            Ok(bytes) => hex_decoded_exact(encode_utf8(text@), N as nat) == Some(bytes@),
            Err(reason) => reason == DenyReason::MalformedInput && hex_decoded_exact(
                encode_utf8(text@),
                N as nat,
            ) is None,
        },
{
    let bytes = match hex_decode(text.as_bytes()) {
        Ok(bytes) => bytes,
        Err(_) => {
            return Err(DenyReason::MalformedInput);
        },
    };
    let ghost digits = encode_utf8(text@);
    assert(bytes@.len() == digits.len() / 2 && digits.len() % 2 == 0);
    match bytes_to_array::<N>(bytes.as_slice()) {
        Some(array) => Ok(array),
        None => Err(DenyReason::MalformedInput),
    }
}

/// The `N` bytes of `bytes` as an array, if there are exactly `N`.
pub fn bytes_to_array<const N: usize>(bytes: &[u8]) -> (array: Option<[u8; N]>)
    ensures
        match array {
            Some(array) => array@ == bytes@,
            None => bytes@.len() != N,
        },
{
    if bytes.len() != N {
        return None;
    }
    let mut array: [u8; N] = [0u8; N];
    let mut i: usize = 0;
    while i < N
        invariant
            i <= N,
            bytes@.len() == N,
            forall|k: int| 0 <= k < i ==> array@[k] == bytes@[k],
        decreases N - i,
    {
        array[i] = bytes[i];
        i += 1;
    }
    assert(array@ =~= bytes@);
    Some(array)
}

/// The hex digit for `value`, as a piece of text.
fn hex_symbol(value: u8, upper: bool) -> (symbol: &'static str)
    requires
        value < 16,
    ensures
        symbol@ == seq![hex_char(value, upper)],
{
    proof {
        reveal_strlit("0");
        reveal_strlit("1");
        reveal_strlit("2");
        reveal_strlit("3");
        reveal_strlit("4");
        reveal_strlit("5");
        reveal_strlit("6");
        reveal_strlit("7");
        reveal_strlit("8");
        reveal_strlit("9");
        reveal_strlit("A");
        reveal_strlit("B");
        reveal_strlit("C");
        reveal_strlit("D");
        reveal_strlit("E");
        reveal_strlit("F");
        reveal_strlit("a");
        reveal_strlit("b");
        reveal_strlit("c");
        reveal_strlit("d");
        reveal_strlit("e");
        reveal_strlit("f");
    }
    let symbol = match value {
        0 => "0",
        1 => "1",
        2 => "2",
        3 => "3",
        4 => "4",
        5 => "5",
        6 => "6",
        7 => "7",
        8 => "8",
        9 => "9",
        10 => if upper {
            "A"
        } else {
            "a"
        },
        11 => if upper {
            "B"
        } else {
            "b"
        },
        12 => if upper {
            "C"
        } else {
            "c"
        },
        13 => if upper {
            "D"
        } else {
            "d"
        },
        14 => if upper {
            "E"
        } else {
            "e"
        },
        _ => if upper {
            "F"
        } else {
            "f"
        },
    };
    assert(symbol@ =~= seq![hex_char(value, upper)]);
    symbol
}

/// Writes `bytes` as hex text, in upper or lower case.
pub fn encode_hex(bytes: &[u8], upper: bool) -> (text: String)
    ensures
        text@ == hex_text(bytes@, upper),
{
    let mut text = String::new();
    let mut i: usize = 0;
    while i < bytes.len()
        invariant
            i <= bytes.len(),
            text@.len() == 2 * i,
            forall|k: int| 0 <= k < 2 * i ==> text@[k] == hex_text(bytes@, upper)[k],
        decreases bytes.len() - i,
    {
        let byte: u8 = bytes[i];
        text.append(hex_symbol(byte / 16, upper));
        text.append(hex_symbol(byte % 16, upper));
        i += 1;
    }
    assert(text@ =~= hex_text(bytes@, upper));
    text
}

/// Hex text holds ASCII only, so each of its symbols is one byte.
pub proof fn lemma_hex_text_is_ascii(bytes: Seq<u8>, upper: bool)
    ensures
        is_ascii_chars(hex_text(bytes, upper)),
        encode_utf8(hex_text(bytes, upper)).len() == 2 * bytes.len(),
        forall|k: int|
            0 <= k < 2 * bytes.len() ==> #[trigger] encode_utf8(hex_text(bytes, upper))[k]
                == hex_text(bytes, upper)[k] as u8,
{
    let text = hex_text(bytes, upper);
    assert(is_ascii_chars(text));
    is_ascii_chars_encode_utf8(text);
}

/// Decoding undoes encoding: the hex text of any bytes, in either case,
/// spells these bytes.
pub proof fn lemma_hex_round_trip(bytes: Seq<u8>, upper: bool)
    ensures
        hex_decoded(encode_utf8(hex_text(bytes, upper))) == Some(bytes),
        hex_decoded_exact(encode_utf8(hex_text(bytes, upper)), bytes.len()) == Some(bytes),
{
    let text = hex_text(bytes, upper);
    let codes = encode_utf8(text);
    lemma_hex_text_is_ascii(bytes, upper);
    assert forall|k: int| 0 <= k < codes.len() implies hex_digit_value(#[trigger] codes[k])
        == Some(if k % 2 == 0 {
        bytes[k / 2] / 16
    } else {
        bytes[k / 2] % 16
    }) by {
        assert(codes[k] == text[k] as u8);
    }
    assert(is_hex(codes));
    assert forall|i: int| 0 <= i < bytes.len() implies hex_value(codes)[i] == bytes[i] by {
        assert(hex_digit_value(codes[2 * i]) == Some(bytes[i] / 16));
        assert(hex_digit_value(codes[2 * i + 1]) == Some(bytes[i] % 16));
    }
    assert(hex_value(codes) =~= bytes);
}

} // verus!
