//! Text forms of numbers and bytes: decimal numbers, hexadecimal strings and address strings.

use vstd::prelude::*;
use crate::primitives::Address;

verus! {

// ---------------------------------------------------------------------------
// Decimal numbers
// ---------------------------------------------------------------------------
/// The character of a decimal digit.
pub open spec fn digit_char(d: nat) -> char {
    (('0' as nat) + d) as char
}

/// A number in decimal, without leading zeros.
pub open spec fn decimal(n: nat) -> Seq<char>
    decreases n,
{
    if n < 10 {
        seq![digit_char(n)]
    } else {
        decimal(n / 10).push(digit_char(n % 10))
    }
}

/// Whether every character is a decimal digit.
pub open spec fn all_digits(t: Seq<char>) -> bool {
    forall|i: int| 0 <= i < t.len() ==> '0' <= #[trigger] t[i] <= '9'
}

/// The number that a string of decimal digits stands for.
pub open spec fn decimal_value(t: Seq<char>) -> nat
    decreases t.len(),
{
    if t.len() == 0 {
        0
    } else {
        (decimal_value(t.drop_last()) * 10 + (t.last() as nat - '0' as nat)) as nat
    }
}

/// What a string reads as, taken as an unsigned 64-bit number: digits only, one `+` allowed in
/// front, and no more than fits.
pub open spec fn number_text(t: Seq<char>) -> Option<u64> {
    let digits = if t.len() > 0 && t[0] == '+' {
        t.skip(1)
    } else {
        t
    };
    if digits.len() > 0 && all_digits(digits) && decimal_value(digits) <= u64::MAX {
        Some(decimal_value(digits) as u64)
    } else {
        None
    }
}

/// What the standard library says of a string that is not an unsigned 64-bit number.
pub uninterp spec fn number_error_text(t: Seq<char>) -> Seq<char>;

/// `str::parse::<u64>`: reads an optional `+` and then only digits; anything else, an empty
/// number and one that does not fit are errors. The error comes as its text.
#[verifier::external_body]
pub(crate) fn parse_number(text: &str) -> (number: Result<u64, String>)
    ensures
        match number {
            Ok(n) => number_text(text@) == Some(n),
            Err(e) => number_text(text@) is None && e@ == number_error_text(text@),
        },
{
    text.parse::<u64>().map_err(|e| e.to_string())
}

/// The string of one decimal digit.
fn digit_text(d: u64) -> (text: &'static str)
    requires
        d < 10,
    ensures
        text@ == seq![digit_char(d as nat)],
{
    proof {
        reveal_strlit("0");
        reveal_strlit("1");
        reveal_strlit("2");
        reveal_strlit("3");
        reveal_strlit("4");
        reveal_strlit("5");
        reveal_strlit("6");
        reveal_strlit("7");
        reveal_strlit("8");
        reveal_strlit("9");
    }
    let text = match d {
        0 => "0",
        1 => "1",
        2 => "2",
        3 => "3",
        4 => "4",
        5 => "5",
        6 => "6",
        7 => "7",
        8 => "8",
        _ => "9",
    };
    assert(text@ =~= seq![digit_char(d as nat)]);
    text
}

/// A number in decimal.
pub fn decimal_text(n: u64) -> (text: String)
    ensures
        text@ == decimal(n as nat),
    decreases n,
{
    if n < 10 {
        digit_text(n).to_owned()
    } else {
        let mut text = decimal_text(n / 10);
        let ghost front = text@;
        text.append(digit_text(n % 10));
        assert(text@ =~= front.push(digit_char((n % 10) as nat)));
        text
    }
}

// ---------------------------------------------------------------------------
// Hexadecimal strings
// ---------------------------------------------------------------------------
/// The lower-case hexadecimal digit of a number below sixteen.
pub open spec fn hex_digit(d: nat) -> char {
    if d < 10 {
        (('0' as nat) + d) as char
    } else {
        (('a' as nat) + (d - 10)) as char
    }
}

/// The value of a hexadecimal digit, of either case.
pub open spec fn hex_digit_value(c: char) -> Option<nat> {
    if '0' <= c <= '9' {
        Some((c as nat - '0' as nat) as nat)
    } else if 'a' <= c <= 'f' {
        Some((c as nat - 'a' as nat + 10) as nat)
    } else if 'A' <= c <= 'F' {
        Some((c as nat - 'A' as nat + 10) as nat)
    } else {
        None
    }
}

/// Bytes in hexadecimal: two lower-case digits for each, high digit first.
pub open spec fn hex_text(s: Seq<u8>) -> Seq<char> {
    Seq::new(
        2 * s.len(),
        |i: int|
            if i % 2 == 0 {
                hex_digit(s[i / 2] as nat / 16)
            } else {
                hex_digit(s[i / 2] as nat % 16)
            },
    )
}

/// Whether a string is made of pairs of hexadecimal digits.
pub open spec fn is_hex_text(t: Seq<char>) -> bool {
    &&& t.len() % 2 == 0
    &&& forall|i: int| 0 <= i < t.len() ==> hex_digit_value(#[trigger] t[i]) is Some
}

/// The bytes that a string of hexadecimal pairs stands for.
pub open spec fn hex_bytes(t: Seq<char>) -> Option<Seq<u8>> {
    if is_hex_text(t) {
        Some(
            Seq::new(
                t.len() / 2,
                |i: int|
                    (hex_digit_value(t[2 * i])->0 * 16 + hex_digit_value(t[2 * i + 1])->0) as u8,
            ),
        )
    } else {
        None
    }
}

/// What the `hex` crate says of a string that it cannot decode.
pub uninterp spec fn hex_error_text(t: Seq<char>) -> Seq<char>;

/// `hex::encode`: two lower-case digits for each byte.
#[verifier::external_body]
pub(crate) fn encode_hex(data: &[u8]) -> (text: String)
    ensures
        text@ == hex_text(data@),
{
    hex::encode(data)
}

/// `hex::decode`: pairs of digits of either case give the bytes; an odd length or another
/// character is an error, which comes as its text.
#[verifier::external_body]
pub(crate) fn decode_hex(text: &str) -> (bytes: Result<Vec<u8>, String>)
    ensures
        match bytes {
            Ok(b) => hex_bytes(text@) == Some(b@),
            Err(e) => hex_bytes(text@) is None && e@ == hex_error_text(text@),
        },
{
    hex::decode(text).map_err(|e| e.to_string())
}

/// Decoding the hexadecimal form of bytes gives the bytes back.
pub proof fn law_hex_round_trip(s: Seq<u8>)
    ensures
        hex_bytes(hex_text(s)) == Some(s),
{
    let t = hex_text(s);
    assert forall|i: int| 0 <= i < t.len() implies hex_digit_value(#[trigger] t[i]) is Some by {
        lemma_hex_digit(s[i / 2] as nat / 16);
        lemma_hex_digit(s[i / 2] as nat % 16);
    }
    assert(is_hex_text(t));
    let back = hex_bytes(t)->0;
    assert forall|i: int| 0 <= i < s.len() implies #[trigger] back[i] == s[i] by {
        lemma_hex_digit(s[i] as nat / 16);
        lemma_hex_digit(s[i] as nat % 16);
        assert((2 * i) / 2 == i && (2 * i) % 2 == 0);
        assert((2 * i + 1) / 2 == i && (2 * i + 1) % 2 == 1);
        assert(s[i] as nat / 16 * 16 + s[i] as nat % 16 == s[i] as nat);
    }
    assert(back =~= s);
}

/// A digit reads as the number it was written for.
proof fn lemma_hex_digit(d: nat)
    requires
        d < 16,
    ensures
        hex_digit_value(hex_digit(d)) == Some(d),
{
}

// ---------------------------------------------------------------------------
// The `0x` prefix
// ---------------------------------------------------------------------------
/// Whether a string starts with `0x`.
pub open spec fn has_0x_prefix(t: Seq<char>) -> bool {
    t.len() >= 2 && t[0] == '0' && t[1] == 'x'
}

/// A string without one leading `0x`.
pub open spec fn without_0x(t: Seq<char>) -> Seq<char> {
    if has_0x_prefix(t) {
        t.skip(2)
    } else {
        t
    }
}

/// Bytes in hexadecimal, with `0x` in front.
pub open spec fn hex_0x(s: Seq<u8>) -> Seq<char> {
    "0x"@ + hex_text(s)
}

/// Drops one leading `0x`, where there is one.
pub fn without_0x_prefix(text: &str) -> (rest: &str)
    ensures
        rest@ == without_0x(text@),
{
    let len: usize = text.unicode_len();
    if len >= 2 && text.get_char(0) == '0' && text.get_char(1) == 'x' {
        let rest = text.substring_char(2, len);
        assert(rest@ =~= text@.skip(2));
        rest
    } else {
        text
    }
}

/// Puts `0x` in front of a string that does not start with it yet.
pub fn with_0x_prefix(text: &str) -> (full: String)
    ensures
        full@ == (if has_0x_prefix(text@) {
            text@
        } else {
            "0x"@ + text@
        }),
{
    let len: usize = text.unicode_len();
    if len >= 2 && text.get_char(0) == '0' && text.get_char(1) == 'x' {
        text.to_owned()
    } else {
        "0x".to_owned().concat(text)
    }
}

/// Bytes in hexadecimal, with `0x` in front.
pub fn hex_0x_text(data: &[u8]) -> (text: String)
    ensures
        text@ == hex_0x(data@),
{
    let digits = encode_hex(data);
    proof {
        lemma_hex_text_has_no_prefix(data@);
    }
    with_0x_prefix(digits.as_str())
}

/// The hexadecimal form of bytes never starts with `0x`.
pub proof fn lemma_hex_text_has_no_prefix(s: Seq<u8>)
    ensures
        !has_0x_prefix(hex_text(s)),
{
    let t = hex_text(s);
    if has_0x_prefix(t) {
        lemma_hex_digit(s[0] as nat % 16);
        assert(t[1] == hex_digit(s[0] as nat % 16));
        assert(hex_digit_value('x') is None);
    }
}

/// What was written with `0x` in front reads back as the bytes once the prefix is dropped.
pub proof fn law_hex_0x_round_trip(s: Seq<u8>)
    ensures
        hex_bytes(without_0x(hex_0x(s))) == Some(s),
{
    reveal_strlit("0x");
    assert(hex_0x(s).skip(2) =~= hex_text(s));
    law_hex_round_trip(s);
}

// ---------------------------------------------------------------------------
// Address strings
// ---------------------------------------------------------------------------
/// What a string reads as, taken as a 20-byte address: forty hexadecimal digits, with or
/// without `0x` or `0X` in front.
pub open spec fn address_text(t: Seq<char>) -> Option<Seq<u8>> {
    let digits = if t.len() >= 2 && t[0] == '0' && (t[1] == 'x' || t[1] == 'X') {
        t.skip(2)
    } else {
        t
    };
    if digits.len() == 40 {
        hex_bytes(digits)
    } else {
        None
    }
}

/// What the address parser says of a string that is not an address.
pub uninterp spec fn address_error_text(t: Seq<char>) -> Seq<char>;

/// `alloy_primitives::Address` read with `str::parse`: forty hexadecimal digits of either case,
/// after an optional `0x` or `0X`; the checksum casing is not looked at. The error comes as its
/// text.
#[verifier::external_body]
pub(crate) fn parse_evm_address(text: &str) -> (address: Result<Address, String>)
    ensures
        match address {
            Ok(a) => address_text(text@) == Some(a@),
            Err(e) => address_text(text@) is None && e@ == address_error_text(text@),
        },
{
    text.parse::<alloy_primitives::Address>().map(|a| Address { bytes: a.into_array() }).map_err(
        |e| e.to_string(),
    )
}

/// An account address of the solver: a byte string, normally of twenty bytes.
#[derive(Debug, Clone, PartialEq, Eq)]
pub struct SolverAddress(pub Vec<u8>);

impl View for SolverAddress {
    type V = Seq<u8>;

    open spec fn view(&self) -> Seq<u8> {
        self.0@
    }
}

/// The address that a 32-byte word holds in its last twenty bytes.
pub open spec fn word_address(w: Seq<u8>) -> Seq<u8> {
    w.subrange(12, 32)
}

/// The hexadecimal string of the address in a 32-byte word.
pub fn bytes32_to_address(bytes32: &[u8; 32]) -> (text: String)
    ensures
        text@ == hex_text(word_address(bytes32@)),
{
    let mut address: Vec<u8> = Vec::new();
    for i in 12..32
        invariant
            address@ == bytes32@.subrange(12, i as int),
    {
        address.push(bytes32[i]);
        assert(bytes32@.subrange(12, i + 1) =~= bytes32@.subrange(12, i as int).push(
            bytes32@[i as int],
        ));
    }
    encode_hex(address.as_slice())
}

/// What an address string of the solver stands for: twenty bytes in hexadecimal, with or
/// without `0x`.
pub open spec fn solver_address_text(t: Seq<char>) -> Option<Seq<u8>> {
    match hex_bytes(without_0x(t)) {
        Some(b) => if b.len() == 20 {
            Some(b)
        } else {
            None
        },
        None => None,
    }
}

/// Reads an address string; a string that is not twenty hexadecimal bytes is refused.
pub fn parse_address(text: &str) -> (address: Result<SolverAddress, String>)
    ensures
        match address {
            Ok(a) => solver_address_text(text@) == Some(a@),
            Err(e) => solver_address_text(text@) is None && e@ == (match hex_bytes(
                without_0x(text@),
            ) {
                Some(b) => "Invalid address length: "@ + decimal(b.len()),
                None => "Invalid hex: "@ + hex_error_text(without_0x(text@)),
            }),
        },
{
    match decode_hex(without_0x_prefix(text)) {
        Ok(bytes) => {
            if bytes.len() == 20 {
                Ok(SolverAddress(bytes))
            } else {
                Err("Invalid address length: ".to_owned().concat(
                    decimal_text(bytes.len() as u64).as_str(),
                ))
            }
        },
        Err(e) => Err("Invalid hex: ".to_owned().concat(e.as_str())),
    }
}

/// The address in a word, written out by `bytes32_to_address`, is read back by `parse_address`.
pub proof fn law_word_address_reads_back(w: Seq<u8>)
    requires
        w.len() == 32,
    ensures
        solver_address_text(hex_text(word_address(w))) == Some(word_address(w)),
{
    lemma_hex_text_has_no_prefix(word_address(w));
    law_hex_round_trip(word_address(w));
}

} // verus!
