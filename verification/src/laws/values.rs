//! What bytes, numbers, addresses and strings stand for, digit by digit.

use vstd::arithmetic::div_mod::lemma_div_denominator;
use vstd::arithmetic::power::{lemma_pow1, lemma_pow_adds, lemma_pow_positive, pow};
use vstd::prelude::*;
use crate::abi::{IntentWire, output_wire_view, OutputWire, solves_view};
use crate::bytes::{all_zero, be_bytes, be_value, lemma_be_bytes_len, zeros};
use crate::parsed::InteropAddress;
use crate::primitives::{Address, U256, word};
use crate::text::{
    address_text, bytes32_to_address, decimal, decimal_text, decimal_value, digit_char, hex_0x_text,
    hex_bytes, hex_digit_value, hex_text, number_text, parse_address, SolverAddress, with_0x_prefix,
    without_0x_prefix,
};
use crate::types::truncate32;

verus! {

// ---------------------------------------------------------------------------
// Numbers
// ---------------------------------------------------------------------------
/// A byte string is read from front to back, each byte as a digit to the base 256.
pub proof fn law_bytes_are_digits(front: Seq<u8>, last: u8)
    ensures
        be_value(Seq::empty()) == 0,
        be_value(front.push(last)) == 256 * be_value(front) + last,
{
    assert(front.push(last).drop_last() =~= front);
}

/// The digits of a number that is written in a fixed number of bytes.
proof fn lemma_digits(n: nat, len: nat, i: int)
    requires
        0 <= i < len,
    ensures
        be_bytes(n, len).len() == len,
        be_bytes(n, len)[i] == (n as int / pow(256, (len - 1 - i) as nat)) % 256,
    decreases len,
{
    lemma_be_bytes_len(n, len);
    lemma_be_bytes_len(n / 256, (len - 1) as nat);
    if i == len - 1 {
        assert(pow(256, 0) == 1) by {
            reveal(pow);
        }
        assert(n as int / 1 == n as int);
    } else {
        let k = (len - 2 - i) as nat;
        lemma_digits(n / 256, (len - 1) as nat, i);
        lemma_pow1(256);
        lemma_pow_adds(256, 1, k);
        lemma_pow_positive(256, k);
        lemma_div_denominator(n as int, 256, pow(256, k));
    }
}

/// The digits of zero are zeros.
pub proof fn lemma_zero_digits(len: nat, i: int)
    requires
        0 <= i < len,
    ensures
        be_bytes(0, len)[i] == 0,
    decreases len,
{
    lemma_be_bytes_len(0, (len - 1) as nat);
    if i < len - 1 {
        lemma_zero_digits((len - 1) as nat, i);
    }
}

/// The word of a number is thirty-two bytes, the one at `i` its digit of weight `256^(31 - i)`.
pub proof fn law_word_holds_digits(n: nat, i: int)
    requires
        0 <= i < 32,
    ensures
        word(n).len() == 32,
        word(n)[i] == (n as int / pow(256, (31 - i) as nat)) % 256,
{
    lemma_digits(n, 32, i);
}

/// The value of a 256-bit number is made of its two halves.
pub proof fn law_number_is_two_halves(n: U256)
    ensures
        n@ == n.hi * 0x1_0000_0000_0000_0000_0000_0000_0000_0000 + n.lo,
{
}

/// A number is written with its most significant byte first.
pub proof fn law_number_is_written_by_digits(n: U256, bytes: [u8; 32], i: int)
    requires
        call_ensures(U256::to_be_bytes, (&n,), bytes),
        0 <= i < 32,
    ensures
        bytes@[i] == ((n.hi * 0x1_0000_0000_0000_0000_0000_0000_0000_0000 + n.lo) / pow(
            256,
            (31 - i) as nat,
        )) % 256,
{
    law_word_holds_digits(n@, i);
}

/// A number is read with its most significant byte first.
pub proof fn law_number_is_read_by_digits(bytes: [u8; 32], n: U256, i: int)
    requires
        call_ensures(U256::from_be_bytes, (&bytes,), n),
        0 <= i < 32,
    ensures
        bytes@[i] == ((n.hi * 0x1_0000_0000_0000_0000_0000_0000_0000_0000 + n.lo) / pow(
            256,
            (31 - i) as nat,
        )) % 256,
{
    law_word_holds_digits(n@, i);
}

/// A small number has nothing in its high half, and only a number of 64 bits is one of them.
pub proof fn law_small_numbers(value: u64, made: U256, n: U256, small: Option<u64>, zero: U256)
    requires
        call_ensures(<U256 as From<u64>>::from, (value,), made),
        call_ensures(U256::try_to_u64, (&n,), small),
        call_ensures(U256::zero, (), zero),
    ensures
        made.hi == 0 && made.lo == value,
        small is Some <==> n.hi == 0 && n.lo <= u64::MAX,
        small matches Some(s) ==> s == n.lo,
        zero.hi == 0 && zero.lo == 0,
{
}

/// A number of 64 bits is taken as it is.
pub proof fn law_small_number_is_kept(n: U256, value: u64)
    requires
        n.hi == 0,
        n.lo <= u64::MAX,
        call_ensures(U256::to_u64, (&n,), value),
    ensures
        value == n.lo,
{
}

/// Thirty-two bits are kept of a time.
pub proof fn law_time_is_truncated(n: u64, low: u32)
    requires
        call_ensures(truncate32, (n,), low),
    ensures
        low == n % 0x1_0000_0000,
{
}

/// Bytes are all zero exactly if each of them is.
pub proof fn law_all_zero_means_each(bytes: &[u8], zero: bool)
    requires
        call_ensures(all_zero, (bytes,), zero),
    ensures
        zero <==> forall|i: int| 0 <= i < bytes@.len() ==> #[trigger] bytes@[i] == 0,
{
    if forall|i: int| 0 <= i < bytes@.len() ==> #[trigger] bytes@[i] == 0 {
        assert(bytes@ =~= zeros(bytes@.len()));
    }
}

// ---------------------------------------------------------------------------
// Addresses
// ---------------------------------------------------------------------------
/// An address is the twenty bytes that it is made from, and an account on a chain has both.
pub proof fn law_addresses_are_made_of_bytes(
    bytes: [u8; 20],
    address: Address,
    pair: (u64, SolverAddress),
    account: InteropAddress,
)
    requires
        call_ensures(<Address as From<[u8; 20]>>::from, (bytes,), address),
        call_ensures(<InteropAddress as From<(u64, SolverAddress)>>::from, (pair,), account),
    ensures
        address.bytes@ == bytes@,
        account.chain_id == pair.0,
        account.address.0@ == pair.1.0@,
{
}

/// The word of an address holds its bytes in their order behind twelve zeros.
pub proof fn law_address_ends_its_word(address: Address, bytes32: [u8; 32], i: int)
    requires
        call_ensures(Address::to_word, (&address,), bytes32),
        0 <= i < 32,
    ensures
        bytes32@[i] == (if i < 12 {
            0
        } else {
            address.bytes@[i - 12]
        }),
{
}

/// A word holds an address exactly if its first twelve bytes are zero: the one in its other bytes.
pub proof fn law_address_is_read_from_its_word(bytes32: [u8; 32], address: Option<Address>)
    requires
        call_ensures(Address::from_word, (&bytes32,), address),
    ensures
        address is Some <==> forall|i: int| 0 <= i < 12 ==> #[trigger] bytes32@[i] == 0,
        address matches Some(a) ==> forall|i: int|
            0 <= i < 20 ==> #[trigger] a.bytes@[i] == bytes32@[12 + i],
{
    if address is Some {
        assert forall|i: int| 0 <= i < 12 implies #[trigger] bytes32@[i] == 0 by {
            assert(bytes32@.subrange(0, 12)[i] == zeros(12)[i]);
        }
    }
    if forall|i: int| 0 <= i < 12 ==> #[trigger] bytes32@[i] == 0 {
        assert(bytes32@.subrange(0, 12) =~= zeros(12));
    }
}

/// The zero address has twenty zeros, and no other address is zero.
pub proof fn law_zero_address(zero: Address, address: Address, is_zero: bool, bytes: Vec<u8>)
    requires
        call_ensures(Address::zero, (), zero),
        call_ensures(Address::is_zero, (&address,), is_zero),
        call_ensures(Address::to_vec, (&address,), bytes),
    ensures
        forall|i: int| 0 <= i < 20 ==> #[trigger] zero.bytes@[i] == 0,
        is_zero <==> forall|i: int| 0 <= i < 20 ==> #[trigger] address.bytes@[i] == 0,
        bytes@ == address.bytes@,
{
    if forall|i: int| 0 <= i < 20 ==> #[trigger] address.bytes@[i] == 0 {
        assert(address@ =~= zeros(20));
    }
    assert forall|i: int| 0 <= i < 20 implies #[trigger] zero.bytes@[i] == 0 by {
        assert(zero@[i] == zeros(20)[i]);
    }
    if is_zero {
        assert forall|i: int| 0 <= i < 20 implies #[trigger] address.bytes@[i] == 0 by {
            assert(address@[i] == zeros(20)[i]);
        }
    }
}

// ---------------------------------------------------------------------------
// Wire values
// ---------------------------------------------------------------------------
/// What the encoder takes for an output, field by field.
pub proof fn law_wire_output_fields(wire: OutputWire)
    ensures
        output_wire_view(wire).oracle == wire.0@,
        output_wire_view(wire).settler == wire.1@,
        output_wire_view(wire).chain_id == be_value(wire.2@),
        output_wire_view(wire).token == wire.3@,
        output_wire_view(wire).amount == be_value(wire.4@),
        output_wire_view(wire).recipient == wire.5@,
        output_wire_view(wire).call == wire.6@,
        output_wire_view(wire).context == wire.7@,
{
}

/// What the encoder takes for an intent, field by field, and for the solves of a claim.
pub proof fn law_wire_intent_fields(wire: IntentWire, solves: Seq<(u32, [u8; 32])>, i: int)
    ensures
        wire@.user == wire.user@,
        wire@.nonce == be_value(wire.nonce@),
        wire@.origin_chain_id == be_value(wire.origin_chain_id@),
        wire@.expires == be_value(wire.expires@),
        wire@.fill_deadline == be_value(wire.fill_deadline@),
        wire@.fill_oracle == wire.fill_oracle@,
        wire@.inputs.len() == wire.inputs@.len(),
        0 <= i < wire.inputs@.len() ==> wire@.inputs[i] == (
            be_value(wire.inputs@[i]@[0]@),
            be_value(wire.inputs@[i]@[1]@),
        ),
        wire@.outputs.len() == wire.outputs@.len(),
        0 <= i < wire.outputs@.len() ==> wire@.outputs[i] == output_wire_view(wire.outputs@[i]),
        wire@.intent_oracle == wire.intent_oracle@,
        wire@.refund_calldata == wire.refund_calldata@,
        solves_view(solves).len() == solves.len(),
        0 <= i < solves.len() ==> solves_view(solves)[i] == (solves[i].0, solves[i].1@),
{
}

// ---------------------------------------------------------------------------
// Decimal text
// ---------------------------------------------------------------------------
/// Decimal digits are read from front to back.
pub proof fn law_decimal_digits(front: Seq<char>, d: nat)
    requires
        d < 10,
    ensures
        decimal_value(Seq::empty()) == 0,
        decimal_value(front.push("0123456789"@[d as int])) == 10 * decimal_value(front) + d,
{
    reveal_strlit("0123456789");
    let t = front.push("0123456789"@[d as int]);
    assert(t.drop_last() =~= front);
}

/// A string is read as a number if it is made of digits, with or without one `+` in front, and
/// the number fits.
pub proof fn law_number_text(digits: Seq<char>)
    requires
        digits.len() > 0,
        forall|i: int| 0 <= i < digits.len() ==> '0' <= #[trigger] digits[i] <= '9',
    ensures
        number_text(digits) == (if decimal_value(digits) <= u64::MAX {
            Some(decimal_value(digits) as u64)
        } else {
            None
        }),
        number_text(seq!['+'] + digits) == number_text(digits),
{
    assert((seq!['+'] + digits).skip(1) =~= digits);
    assert('0' <= digits[0]);
}

/// No other string is read as a number.
pub proof fn law_other_text_is_no_number(text: Seq<char>, i: int)
    requires
        text.len() == 0 || text == seq!['+'] || (0 <= i < text.len() && !('0' <= text[i] <= '9')
            && (i > 0 || text[i] != '+')),
    ensures
        number_text(text) is None,
{
    if text.len() > 0 && text != seq!['+'] {
        if text[0] == '+' {
            assert(text.skip(1)[i - 1] == text[i]);
        }
    } else if text.len() > 0 {
        assert(text.skip(1).len() == 0);
    }
}

/// A number is written in decimal digits that read back as the number, with no zero in front
/// unless it is the only digit.
pub proof fn law_decimal_text_reads_back(n: u64, text: String)
    requires
        call_ensures(decimal_text, (n,), text),
    ensures
        text@.len() > 0,
        forall|i: int| 0 <= i < text@.len() ==> '0' <= #[trigger] text@[i] <= '9',
        decimal_value(text@) == n,
        number_text(text@) == Some(n),
        text@[0] == '0' ==> text@.len() == 1,
{
    lemma_decimal(n as nat);
}

/// The digits of a number in decimal.
proof fn lemma_decimal(n: nat)
    ensures
        decimal(n).len() > 0,
        forall|i: int| 0 <= i < decimal(n).len() ==> '0' <= #[trigger] decimal(n)[i] <= '9',
        decimal_value(decimal(n)) == n,
        decimal(n)[0] == '0' ==> n == 0 && decimal(n).len() == 1,
    decreases n,
{
    if n < 10 {
        let t = decimal(n);
        assert(t.drop_last() =~= Seq::<char>::empty());
        assert(decimal_value(t.drop_last()) == 0);
    } else {
        lemma_decimal(n / 10);
        let front = decimal(n / 10);
        assert(decimal(n).drop_last() =~= front);
        assert(decimal(n).last() == digit_char(n % 10));
        assert(decimal(n)[0] == front[0]);
    }
}

// ---------------------------------------------------------------------------
// Hexadecimal text
// ---------------------------------------------------------------------------
/// Bytes are written as two lower-case digits each, the high one first.
pub proof fn law_hex_text_digits(bytes: Seq<u8>, i: int)
    requires
        0 <= i < bytes.len(),
    ensures
        hex_text(bytes).len() == 2 * bytes.len(),
        hex_text(bytes)[2 * i] == "0123456789abcdef"@[bytes[i] as int / 16],
        hex_text(bytes)[2 * i + 1] == "0123456789abcdef"@[bytes[i] as int % 16],
{
    reveal_strlit("0123456789abcdef");
    assert((2 * i) / 2 == i && (2 * i) % 2 == 0);
    assert((2 * i + 1) / 2 == i && (2 * i + 1) % 2 == 1);
}

/// A string stands for bytes exactly if it has two digits of either case for each of them, the
/// high one first.
pub proof fn law_hex_bytes_digits(text: Seq<char>, bytes: Seq<u8>)
    ensures
        hex_bytes(text) == Some(bytes) <==> text.len() == 2 * bytes.len() && forall|i: int|
            0 <= i < bytes.len() ==> {
                let (high, low) = (#[trigger] bytes[i] as int / 16, bytes[i] as int % 16);
                &&& text[2 * i] == "0123456789abcdef"@[high] || text[2 * i]
                    == "0123456789ABCDEF"@[high]
                &&& text[2 * i + 1] == "0123456789abcdef"@[low] || text[2 * i + 1]
                    == "0123456789ABCDEF"@[low]
            },
{
    reveal_strlit("0123456789abcdef");
    reveal_strlit("0123456789ABCDEF");
    if text.len() == 2 * bytes.len() && forall|i: int|
        0 <= i < bytes.len() ==> {
            let (high, low) = (#[trigger] bytes[i] as int / 16, bytes[i] as int % 16);
            &&& text[2 * i] == "0123456789abcdef"@[high] || text[2 * i]
                == "0123456789ABCDEF"@[high]
            &&& text[2 * i + 1] == "0123456789abcdef"@[low] || text[2 * i + 1]
                == "0123456789ABCDEF"@[low]
        } {
        assert forall|j: int| 0 <= j < text.len() implies hex_digit_value(
            #[trigger] text[j],
        ) is Some by {
            let b = bytes[j / 2];
            assert(j == 2 * (j / 2) || j == 2 * (j / 2) + 1);
        }
        assert(hex_bytes(text)->0 =~= bytes);
    }
    if hex_bytes(text) == Some(bytes) {
        assert forall|i: int| 0 <= i < bytes.len() implies {
            let (high, low) = (#[trigger] bytes[i] as int / 16, bytes[i] as int % 16);
            &&& text[2 * i] == "0123456789abcdef"@[high] || text[2 * i]
                == "0123456789ABCDEF"@[high]
            &&& text[2 * i + 1] == "0123456789abcdef"@[low] || text[2 * i + 1]
                == "0123456789ABCDEF"@[low]
        } by {
            assert(hex_digit_value(text[2 * i]) is Some);
            assert(hex_digit_value(text[2 * i + 1]) is Some);
        }
    }
}

/// One leading `0x` is dropped, and nothing else.
pub proof fn law_0x_is_dropped<'a>(text: &'a str, rest: &'a str)
    requires
        call_ensures(without_0x_prefix, (text,), rest),
    ensures
        text@.len() >= 2 && text@[0] == '0' && text@[1] == 'x' ==> rest@ == text@.skip(2),
        !(text@.len() >= 2 && text@[0] == '0' && text@[1] == 'x') ==> rest@ == text@,
{
}

/// One `0x` is put in front where there is none.
pub proof fn law_0x_is_added(text: &str, full: String, bytes: &[u8], shown: String)
    requires
        call_ensures(with_0x_prefix, (text,), full),
        call_ensures(hex_0x_text, (bytes,), shown),
    ensures
        full@ == (if text@.len() >= 2 && text@[0] == '0' && text@[1] == 'x' {
            text@
        } else {
            seq!['0', 'x'] + text@
        }),
        shown@ == seq!['0', 'x'] + hex_text(bytes@),
{
    reveal_strlit("0x");
    assert("0x"@ =~= seq!['0', 'x']);
}

/// An address string is forty hexadecimal digits for twenty bytes, with `0x`, `0X` or nothing in
/// front.
pub proof fn law_address_text(text: Seq<char>, address: Seq<u8>)
    ensures
        address_text(text) == Some(address) <==> address.len() == 20 && (hex_bytes(text) == Some(
            address,
        ) || (text.len() == 42 && text[0] == '0' && (text[1] == 'x' || text[1] == 'X')
            && hex_bytes(text.skip(2)) == Some(address))),
{
    if text.len() >= 2 && (text[1] == 'x' || text[1] == 'X') {
        assert(hex_digit_value(text[1]) is None);
    }
}

/// The address in a word is written as the digits of its last twenty bytes.
pub proof fn law_word_shows_its_address(bytes32: [u8; 32], text: String)
    requires
        call_ensures(bytes32_to_address, (&bytes32,), text),
    ensures
        text@ == hex_text(bytes32@.subrange(12, 32)),
{
}

/// An account is read from twenty bytes in hexadecimal, with or without `0x`.
pub proof fn law_account_text(
    text: &str,
    account: Result<SolverAddress, String>,
    digits: Seq<char>,
)
    requires
        call_ensures(parse_address, (text,), account),
        digits == (if text@.len() >= 2 && text@[0] == '0' && text@[1] == 'x' {
            text@.skip(2)
        } else {
            text@
        }),
    ensures
        account is Ok <==> (hex_bytes(digits) matches Some(bytes) && bytes.len() == 20),
        account matches Ok(a) ==> hex_bytes(digits) == Some(a.0@),
{
}

} // verus!
