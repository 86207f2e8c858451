//! Text forms: hexadecimal for bytes, decimal for coordinates.

use hex::FromHexError;
use vstd::prelude::*;
use vstd::string::*;
use vstd::utf8::encode_utf8;

verus! {

// ---------------------------------------------------------------------------
// Decimal
// ---------------------------------------------------------------------------

/// The decimal digit of a number below ten.
pub open spec fn digit_char(n: nat) -> char {
    (48 + n) as char
}

/// A number in decimal.
pub open spec fn decimal(n: nat) -> Seq<char>
    decreases n,
{
    if n < 10 {
        seq![digit_char(n)]
    } else {
        decimal(n / 10).push(digit_char(n % 10))
    }
}

/// A decimal digit as text.
fn digit_text(d: u8) -> (text: &'static str)
    requires
        d < 10,
    ensures
        text@ == seq![digit_char(d as nat)],
{
    proof {
        reveal_strlit("0");
        reveal_strlit("1");
        reveal_strlit("2");
        reveal_strlit("3");
        reveal_strlit("4");
        reveal_strlit("5");
        reveal_strlit("6");
        reveal_strlit("7");
        reveal_strlit("8");
        reveal_strlit("9");
    }
    let text = match d {
        0 => "0",
        1 => "1",
        2 => "2",
        3 => "3",
        4 => "4",
        5 => "5",
        6 => "6",
        7 => "7",
        8 => "8",
        _ => "9",
    };
    assert(text@ =~= seq![digit_char(d as nat)]);
    text
}

/// A byte in decimal.
pub fn decimal_text(n: u8) -> (text: String)
    ensures
        text@ == decimal(n as nat),
{
    proof {
        reveal_with_fuel(decimal, 3);
    }
    let mut text = String::new();
    if n >= 100 {
        text.append(digit_text(n / 100));
    }
    if n >= 10 {
        text.append(digit_text(n / 10 % 10));
    }
    text.append(digit_text(n % 10));
    assert(text@ =~= decimal(n as nat));
    text
}

// ---------------------------------------------------------------------------
// Hexadecimal
// ---------------------------------------------------------------------------

/// Why a text is not hexadecimal.
#[derive(Debug, Clone, Copy, PartialEq, Eq, Structural)]
pub enum HexError {
    /// A character that is no hexadecimal digit, and its position in bytes.
    InvalidCharacter { c: char, index: usize },
    /// Two digits make a byte, so their number must be even.
    OddLength,
    /// The digits do not fill a container of fixed size.
    InvalidStringLength,
}

/// The value of a hexadecimal digit, in either case.
pub open spec fn hex_digit_value(b: u8) -> Option<int> {
    if 0x30 <= b <= 0x39 {
        Some(b - 0x30)
    } else if 0x61 <= b <= 0x66 {
        Some(b - 0x61 + 10)
    } else if 0x41 <= b <= 0x46 {
        Some(b - 0x41 + 10)
    } else {
        None
    }
}

/// The first position, from `from` on, that holds no hexadecimal digit; the length of the
/// text if there is none.
pub open spec fn first_non_digit(text: Seq<u8>, from: nat) -> nat
    decreases text.len() - from,
{
    if from >= text.len() {
        text.len()
    } else if hex_digit_value(text[from as int]) is None {
        from
    } else {
        first_non_digit(text, from + 1)
    }
}

/// What a text decodes to: pairs of hexadecimal digits, the high one first.
pub open spec fn hex_decoding(text: Seq<u8>) -> Result<Seq<u8>, HexError> {
    let bad = first_non_digit(text, 0);
    if text.len() % 2 != 0 {
        Err(HexError::OddLength)
    } else if bad < text.len() {
        Err(HexError::InvalidCharacter { c: text[bad as int] as char, index: bad as usize })
    } else {
        Ok(
            Seq::new(
                text.len() / 2,
                |i: int|
                    (16 * hex_digit_value(text[2 * i]).unwrap() + hex_digit_value(
                        text[2 * i + 1],
                    ).unwrap()) as u8,
            ),
        )
    }
}

/// The lower-case hexadecimal digit of a number below sixteen.
pub open spec fn hex_char(n: int) -> char {
    if n < 10 {
        (48 + n) as char
    } else {
        (87 + n) as char
    }
}

/// Bytes in lower-case hexadecimal, two digits for each, the high one first.
pub open spec fn hex_text(data: Seq<u8>) -> Seq<char> {
    Seq::new(
        2 * data.len(),
        |i: int|
            if i % 2 == 0 {
                hex_char(data[i / 2] as int / 16)
            } else {
                hex_char(data[i / 2] as int % 16)
            },
    )
}

/// How a character is shown in quotes, as `{:?}` formats it.
pub uninterp spec fn quoted_char(c: char) -> Seq<char>;

/// What is said of a text that is not hexadecimal.
pub open spec fn hex_error_message(error: HexError) -> Seq<char> {
    match error {
        HexError::InvalidCharacter { c, index } => "Invalid character "@ + quoted_char(c)
            + " at position "@ + decimal(index as nat),
        HexError::OddLength => "Odd number of digits"@,
        HexError::InvalidStringLength => "Invalid string length"@,
    }
}

/// Calls `hex::decode`. Trusted: digits of either case are decoded in pairs, and of a text
/// that is refused the odd length is reported first, then the first byte that is no digit.
#[verifier::external_body]
pub(crate) fn hex_decode(text: &[u8]) -> (decoded: Result<Vec<u8>, HexError>)
    ensures
        match decoded {
            Ok(bytes) => hex_decoding(text@) == Ok::<Seq<u8>, HexError>(bytes@),
            Err(error) => hex_decoding(text@) == Err::<Seq<u8>, HexError>(error),
        },
{
    match hex::decode(text) {
        Ok(bytes) => Ok(bytes),
        Err(FromHexError::InvalidHexCharacter { c, index }) => {
            Err(HexError::InvalidCharacter { c, index })
        },
        Err(FromHexError::OddLength) => Err(HexError::OddLength),
        Err(FromHexError::InvalidStringLength) => Err(HexError::InvalidStringLength),
    }
}

/// Calls the `Display` implementation of `hex::FromHexError`. Trusted: the text it writes
/// for each error. How a character is quoted is left to a name, `quoted_char`.
#[verifier::external_body]
pub(crate) fn hex_error_text(error: &HexError) -> (text: String)
    ensures
        match *error {
            HexError::InvalidCharacter { c, index } => text@ == "Invalid character "@ + quoted_char(
                c,
            ) + " at position "@ + decimal(index as nat),
            HexError::OddLength => text@ == "Odd number of digits"@,
            HexError::InvalidStringLength => text@ == "Invalid string length"@,
        },
{
    let outside = match *error {
        HexError::InvalidCharacter { c, index } => FromHexError::InvalidHexCharacter { c, index },
        HexError::OddLength => FromHexError::OddLength,
        HexError::InvalidStringLength => FromHexError::InvalidStringLength,
    };
    outside.to_string()
}

/// Calls `hex::encode`. Trusted: two lower-case digits for each byte. The text must fit in
/// memory.
#[verifier::external_body]
pub(crate) fn hex_encode(data: &[u8]) -> (text: String)
    requires
        2 * data@.len() <= isize::MAX,
    ensures
        text@ == hex_text(data@),
{
    hex::encode(data)
}

/// What the text of a fixed number of bytes decodes to; otherwise what is said of it,
/// where `complaint` is for hexadecimal text of another length.
pub open spec fn fixed_decoding(text: Seq<char>, size: nat, complaint: Seq<char>) -> Result<
    Seq<u8>,
    Seq<char>,
> {
    match hex_decoding(encode_utf8(text)) {
        Err(error) => Err(hex_error_message(error)),
        Ok(bytes) => if bytes.len() == size {
            Ok(bytes)
        } else {
            Err(complaint)
        },
    }
}

proof fn lemma_digits_to_the_end(text: Seq<u8>, from: nat)
    requires
        from <= text.len(),
        forall|i: int| 0 <= i < text.len() ==> hex_digit_value(#[trigger] text[i]) is Some,
    ensures
        first_non_digit(text, from) == text.len(),
    decreases text.len() - from,
{
    if from < text.len() {
        lemma_digits_to_the_end(text, from + 1);
    }
}

/// Hexadecimal loses nothing: what was encoded decodes to the same bytes.
pub proof fn hex_round_trip(data: Seq<u8>, complaint: Seq<char>)
    ensures
        fixed_decoding(hex_text(data), data.len(), complaint) == Ok::<Seq<u8>, Seq<char>>(data),
{
    let chars = hex_text(data);
    assert(vstd::utf8::is_ascii_chars(chars));
    vstd::utf8::is_ascii_chars_encode_utf8(chars);
    let text = encode_utf8(chars);
    assert forall|i: int| 0 <= i < text.len() implies hex_digit_value(#[trigger] text[i]) is Some
        && hex_digit_value(text[i]).unwrap() == if i % 2 == 0 {
        data[i / 2] as int / 16
    } else {
        data[i / 2] as int % 16
    } by {
        assert(text[i] == chars[i] as u8);
    }
    lemma_digits_to_the_end(text, 0);
    let decoded = hex_decoding(text).unwrap();
    assert forall|i: int| 0 <= i < data.len() implies decoded[i] == data[i] by {
        assert((2 * i) / 2 == i && (2 * i + 1) / 2 == i);
        assert(hex_digit_value(text[2 * i]) is Some);
        assert(hex_digit_value(text[2 * i + 1]) is Some);
    }
    assert(decoded =~= data);
}

/// A decimal ends in the digit of the remainder by ten, after the decimal of the quotient;
/// a number below ten is that digit alone.
pub proof fn decimals_grow_by_digits(n: nat)
    ensures
        n < 10 ==> decimal(n) == seq![(48 + n) as char],
        n >= 10 ==> decimal(n) == decimal(n / 10) + seq![(48 + n % 10) as char],
{
}

/// A text decodes to a fixed number of bytes exactly if it is hexadecimal for that many
/// bytes, no more and no fewer, and then to just those bytes. Of other text it is said first
/// why it is not hexadecimal, and else that the number is wrong.
pub proof fn fixed_decoding_takes_one_size(
    text: Seq<char>,
    size: nat,
    complaint: Seq<char>,
    bytes: Seq<u8>,
)
    ensures
        fixed_decoding(text, size, complaint) == Ok::<Seq<u8>, Seq<char>>(bytes) <==> bytes.len()
            == size && hex_decoding(encode_utf8(text)) == Ok::<Seq<u8>, HexError>(bytes),
        hex_decoding(encode_utf8(text)) is Ok && hex_decoding(encode_utf8(text)).unwrap().len()
            != size ==> fixed_decoding(text, size, complaint) == Err::<Seq<u8>, Seq<char>>(
            complaint,
        ),
        hex_decoding(encode_utf8(text)) matches Err(error) ==> fixed_decoding(
            text,
            size,
            complaint,
        ) == Err::<Seq<u8>, Seq<char>>(
            match error {
                HexError::OddLength => "Odd number of digits"@,
                HexError::InvalidStringLength => "Invalid string length"@,
                HexError::InvalidCharacter { c, index } => "Invalid character "@ + quoted_char(c)
                    + " at position "@ + decimal(index as nat),
            },
        ),
{
}

/// A hexadecimal digit is written `0` to `9`, then `a` to `f` or `A` to `F`, and its value is
/// its place in that row. Bytes are written with the lower-case digits, two for each.
pub proof fn hex_digits_stand_for_their_place(b: u8, v: int, data: Seq<u8>, i: int)
    requires
        0 <= i < data.len(),
    ensures
        hex_digit_value(b) == Some(v) <==> 0 <= v < 16 && (b as char == "0123456789abcdef"@[v] || b
            as char == "0123456789ABCDEF"@[v]),
        hex_text(data).len() == 2 * data.len(),
        hex_text(data)[2 * i] == "0123456789abcdef"@[data[i] as int / 16],
        hex_text(data)[2 * i + 1] == "0123456789abcdef"@[data[i] as int % 16],
{
    reveal_strlit("0123456789abcdef");
    reveal_strlit("0123456789ABCDEF");
    assert((2 * i) / 2 == i && (2 * i + 1) / 2 == i);
    assert(forall|n: int| 0 <= n < 16 ==> #[trigger] hex_char(n) == "0123456789abcdef"@[n]);
    assert(0 <= data[i] as int / 16 < 16);
    assert(hex_text(data)[2 * i] == hex_char(data[i] as int / 16));
    assert(hex_text(data)[2 * i + 1] == hex_char(data[i] as int % 16));
}

proof fn lemma_first_non_digit(text: Seq<u8>, from: nat)
    requires
        from <= text.len(),
    ensures
        from <= first_non_digit(text, from) <= text.len(),
        forall|j: int|
            from <= j < first_non_digit(text, from) ==> hex_digit_value(#[trigger] text[j]) is Some,
        first_non_digit(text, from) < text.len() ==> hex_digit_value(
            text[first_non_digit(text, from) as int],
        ) is None,
    decreases text.len() - from,
{
    if from < text.len() && hex_digit_value(text[from as int]) is Some {
        lemma_first_non_digit(text, from + 1);
    }
}

/// A text is hexadecimal exactly if it is made of an even number of digits; each pair of
/// digits then gives one byte, the high digit first. Of other text an odd length is reported
/// first, and else the first character that is no digit, with its position.
pub proof fn hex_is_read_in_pairs(text: Seq<u8>, i: int)
    requires
        0 <= i < text.len(),
    ensures
        hex_decoding(text) is Ok <==> text.len() % 2 == 0 && forall|j: int|
            0 <= j < text.len() ==> hex_digit_value(#[trigger] text[j]) is Some,
        hex_decoding(text) matches Ok(bytes) ==> bytes.len() * 2 == text.len() && (i % 2 == 0
            ==> bytes[i / 2] == 16 * hex_digit_value(text[i]).unwrap() + hex_digit_value(
            text[i + 1],
        ).unwrap()),
        hex_decoding(text) == Err::<Seq<u8>, HexError>(HexError::OddLength) <==> text.len() % 2
            == 1,
        text.len() % 2 == 0 && hex_digit_value(text[i]) is None && (forall|j: int|
            0 <= j < i ==> hex_digit_value(#[trigger] text[j]) is Some) ==> hex_decoding(text)
            == Err::<Seq<u8>, HexError>(
            HexError::InvalidCharacter { c: text[i] as char, index: i as usize },
        ),
{
    lemma_first_non_digit(text, 0);
    let bad = first_non_digit(text, 0);
    if bad < text.len() {
        assert(hex_digit_value(text[bad as int]) is None);
    }
    if hex_decoding(text) is Ok && i % 2 == 0 {
        assert(2 * (i / 2) == i);
        assert(hex_digit_value(text[i]) is Some);
        assert(hex_digit_value(text[i + 1]) is Some);
    }
}

} // verus!
