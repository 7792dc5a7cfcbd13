use shinobi_solver::primitives::{Address, U256};
use shinobi_solver::text::{
    bytes32_to_address, decimal_text, hex_0x_text, parse_address, with_0x_prefix, without_0x_prefix,
};

#[test]
fn decimal_numbers() {
    assert_eq!(decimal_text(0), "0");
    assert_eq!(decimal_text(9), "9");
    assert_eq!(decimal_text(10), "10");
    assert_eq!(decimal_text(42161), "42161");
    assert_eq!(decimal_text(u64::MAX), "18446744073709551615");
}

#[test]
fn hexadecimal_strings() {
    assert_eq!(hex_0x_text(&[]), "0x");
    assert_eq!(hex_0x_text(&[0x00, 0x0f, 0xf0, 0xab]), "0x000ff0ab");
    assert_eq!(without_0x_prefix("0xab"), "ab");
    assert_eq!(without_0x_prefix("0x0xab"), "0xab");
    assert_eq!(without_0x_prefix("ab"), "ab");
    assert_eq!(without_0x_prefix("0"), "0");
    assert_eq!(with_0x_prefix("ab"), "0xab");
    assert_eq!(with_0x_prefix("0xab"), "0xab");
    assert_eq!(hex::decode(without_0x_prefix(&hex_0x_text(&[1, 2, 255]))), Ok(vec![1, 2, 255]));
}

#[test]
fn addresses_in_words() {
    let mut word = [0xffu8; 32];
    for i in 0..20 {
        word[12 + i] = i as u8;
    }
    let text = bytes32_to_address(&word);
    assert_eq!(text, "000102030405060708090a0b0c0d0e0f10111213");
    assert_eq!(parse_address(&text).unwrap().0, (0u8..20).collect::<Vec<u8>>());
    assert_eq!(parse_address(&format!("0x{}", text)).unwrap().0.len(), 20);
}

#[test]
fn addresses_that_cannot_be_read() {
    assert_eq!(parse_address("0x1234"), Err("Invalid address length: 2".to_string()));
    assert_eq!(
        parse_address("zz"),
        Err("Invalid hex: Invalid character 'z' at position 0".to_string())
    );
    assert_eq!(parse_address("123"), Err("Invalid hex: Odd number of digits".to_string()));
}

#[test]
fn numbers_and_words() {
    let n = U256 { hi: 0x0102, lo: 0x0304 };
    let bytes = n.to_be_bytes();
    let mut expected = [0u8; 32];
    expected[14] = 1;
    expected[15] = 2;
    expected[30] = 3;
    expected[31] = 4;
    assert_eq!(bytes, expected);
    assert_eq!(U256::from_be_bytes(&bytes), n);
    assert_eq!(U256::from_be_bytes(&[0xff; 32]), U256 { hi: u128::MAX, lo: u128::MAX });
    assert_eq!(U256::from(7).try_to_u64(), Some(7));
    assert_eq!(U256::from(u64::MAX).to_u64(), u64::MAX);
    assert_eq!(n.try_to_u64(), None);
    assert_eq!(U256 { hi: 0, lo: 1u128 << 64 }.try_to_u64(), None);
    assert_eq!(U256::zero().to_be_bytes(), [0u8; 32]);
}

#[test]
fn zero_addresses() {
    assert!(Address::zero().is_zero());
    let mut bytes = [0u8; 20];
    bytes[19] = 1;
    assert!(!Address::from(bytes).is_zero());
    assert_eq!(Address::from(bytes).to_vec(), bytes.to_vec());
}
