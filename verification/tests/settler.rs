use shinobi_solver::eip7683::MandateOutput as RustMandateOutput;
use shinobi_solver::intent::ShinobiIntent;
use shinobi_solver::primitives::{Address, U256};
use shinobi_solver::settler::{
    IShinobiInputSettler, IShinobiOutputSettler, MandateOutput, ShinobiIntentSol, SolveParams,
};

fn rust_intent() -> ShinobiIntent {
    ShinobiIntent {
        user: Address::from([1u8; 20]),
        nonce: U256::from(123),
        origin_chain_id: 1,
        expires: 2000000000,
        fill_deadline: 1900000000,
        fill_oracle: Address::from([2u8; 20]),
        inputs: vec![[U256::from(0), U256::from(1000000000000000000u64)]],
        outputs: vec![RustMandateOutput {
            oracle: [3u8; 32],
            settler: [4u8; 32],
            chain_id: U256::from(42161),
            token: [0u8; 32],
            amount: U256::from(900000000000000000u64),
            recipient: [5u8; 32],
            call: Vec::new(),
            context: Vec::new(),
        }],
        intent_oracle: Address::from([6u8; 20]),
        refund_calldata: Vec::new(),
    }
}

/// The ABI encoding of the intent above.
fn known_encoding() -> Vec<u8> {
    let words = [
        "0000000000000000000000000000000000000000000000000000000000000020",
        "0000000000000000000000000101010101010101010101010101010101010101",
        "000000000000000000000000000000000000000000000000000000000000007b",
        "0000000000000000000000000000000000000000000000000000000000000001",
        "0000000000000000000000000000000000000000000000000000000077359400",
        "00000000000000000000000000000000000000000000000000000000713fb300",
        "0000000000000000000000000202020202020202020202020202020202020202",
        "0000000000000000000000000000000000000000000000000000000000000140",
        "00000000000000000000000000000000000000000000000000000000000001a0",
        "0000000000000000000000000606060606060606060606060606060606060606",
        "0000000000000000000000000000000000000000000000000000000000000320",
        "0000000000000000000000000000000000000000000000000000000000000001",
        "0000000000000000000000000000000000000000000000000000000000000000",
        "0000000000000000000000000000000000000000000000000de0b6b3a7640000",
        "0000000000000000000000000000000000000000000000000000000000000001",
        "0000000000000000000000000000000000000000000000000000000000000020",
        "0303030303030303030303030303030303030303030303030303030303030303",
        "0404040404040404040404040404040404040404040404040404040404040404",
        "000000000000000000000000000000000000000000000000000000000000a4b1",
        "0000000000000000000000000000000000000000000000000000000000000000",
        "0000000000000000000000000000000000000000000000000c7d713b49da0000",
        "0505050505050505050505050505050505050505050505050505050505050505",
        "0000000000000000000000000000000000000000000000000000000000000100",
        "0000000000000000000000000000000000000000000000000000000000000120",
        "0000000000000000000000000000000000000000000000000000000000000000",
        "0000000000000000000000000000000000000000000000000000000000000000",
        "0000000000000000000000000000000000000000000000000000000000000000",
    ];
    hex::decode(words.concat()).unwrap()
}

#[test]
fn settler_test_intent_conversion() {
    let rust_intent = rust_intent();

    // Convert to Solidity
    let sol_intent: ShinobiIntentSol = rust_intent.clone().into();

    // Convert back to Rust
    let back_to_rust = ShinobiIntent::from_sol(sol_intent);

    // Should be identical
    assert_eq!(rust_intent, back_to_rust);
}

#[test]
fn test_mandate_output_conversion() {
    let rust_output = RustMandateOutput {
        oracle: [1u8; 32],
        settler: [2u8; 32],
        chain_id: U256::from(42161),
        token: [0u8; 32],
        amount: U256::from(1000),
        recipient: [3u8; 32],
        call: vec![0x12, 0x34],
        context: Vec::new(),
    };

    let sol_output: MandateOutput = rust_output.clone().into();
    let back_to_rust: RustMandateOutput = sol_output.into();

    assert_eq!(rust_output.oracle, back_to_rust.oracle);
    assert_eq!(rust_output.settler, back_to_rust.settler);
    assert_eq!(rust_output.chain_id, back_to_rust.chain_id);
    assert_eq!(rust_output.token, back_to_rust.token);
    assert_eq!(rust_output.amount, back_to_rust.amount);
    assert_eq!(rust_output.recipient, back_to_rust.recipient);
    assert_eq!(rust_output.call, back_to_rust.call);
}

#[test]
fn encoding_of_a_known_intent() {
    let sol: ShinobiIntentSol = rust_intent().into();
    assert_eq!(hex::encode(sol.abi_encode()), hex::encode(known_encoding()));
    assert_eq!(ShinobiIntentSol::abi_decode(&known_encoding()), Ok(sol));
}

#[test]
fn encoding_of_a_full_intent() {
    let mut intent = rust_intent();
    intent.origin_chain_id = 42161;
    intent.inputs = vec![
        [U256::from(5), U256::from(7)],
        [U256 { hi: 1u128 << 127, lo: 1 }, U256 { hi: 1, lo: 0 }],
    ];
    let mut first = intent.outputs[0].clone();
    first.chain_id = U256::from(10);
    first.call = vec![0x12, 0x34];
    first.context = vec![0xaa; 33];
    let mut second = intent.outputs[0].clone();
    second.token = [0xab; 32];
    intent.outputs = vec![first, second];
    intent.refund_calldata = vec![0xde, 0xad, 0xbe, 0xef];
    let sol: ShinobiIntentSol = intent.into();
    let encoded = sol.abi_encode();
    assert_eq!(encoded.len(), 1408);
    assert_eq!(
        hex::encode(alloy_primitives::keccak256(&encoded)),
        "e1b9d70b24f6e103b0b8533a944fcc00f233c52981e3afd27c48c0505cd86af9"
    );
    assert_eq!(ShinobiIntentSol::abi_decode(&encoded), Ok(sol));
}

#[test]
fn decoding_refuses_what_is_not_exactly_an_encoding() {
    let encoded = known_encoding();
    // Cut short.
    assert!(ShinobiIntentSol::abi_decode(&encoded[..encoded.len() - 1]).is_err());
    assert!(ShinobiIntentSol::abi_decode(&[]).is_err());
    // Bytes behind the end.
    let mut longer = encoded.clone();
    longer.extend_from_slice(&[0u8; 32]);
    assert!(ShinobiIntentSol::abi_decode(&longer).is_err());
    // An address with something in front of it.
    let mut dirty = encoded.clone();
    dirty[32] = 1;
    assert!(ShinobiIntentSol::abi_decode(&dirty).is_err());
    // A deadline of more than 32 bits.
    let mut late = encoded.clone();
    late[5 * 32 + 27] = 1;
    assert!(ShinobiIntentSol::abi_decode(&late).is_err());
}

#[test]
fn fill_calldata_is_selector_and_intent() {
    let sol: ShinobiIntentSol = rust_intent().into();
    let data = IShinobiOutputSettler::fill_call(&sol);
    assert_eq!(hex::encode(&data[..4]), "2aedb0a4");
    assert_eq!(&data[4..], &known_encoding()[..]);
}

#[test]
fn finalise_calldata_of_a_known_intent() {
    let sol: ShinobiIntentSol = rust_intent().into();
    let mut solver = [0u8; 32];
    for i in 12..32 {
        solver[i] = 0x77;
    }
    let params = vec![SolveParams { timestamp: 1850000000, solver }];
    let data = IShinobiInputSettler::finalise_call(&sol, &params, solver);
    assert_eq!(hex::encode(&data[..4]), "991d53ac");
    assert_eq!(data.len(), 4 + 1024);
    assert_eq!(
        hex::encode(alloy_primitives::keccak256(&data[4..])),
        "41c6cbd15c4948ad02cc0bf3e9c18d64c3c066449f27ba51bc3393c6b235bd91"
    );
}

#[test]
fn open_event_is_decoded() {
    let hash = IShinobiInputSettler::open_signature_hash();
    assert_eq!(
        hex::encode(hash),
        "54daec2da46c6fb6ca5ee9ec09c505cd7f23125074859e825ed1f0769751bb3e"
    );
    let sol: ShinobiIntentSol = rust_intent().into();
    // A third topic is not looked at.
    for topics in [vec![hash, [9u8; 32]], vec![hash, [9u8; 32], [8u8; 32]]] {
        let event = IShinobiInputSettler::decode_open(&topics, &known_encoding()).unwrap();
        assert_eq!(event.order_id, [9u8; 32]);
        assert_eq!(event.intent, sol);
    }
}

#[test]
fn logs_that_are_not_open_events() {
    let hash = IShinobiInputSettler::open_signature_hash();
    let few = IShinobiInputSettler::decode_open(&vec![hash], &known_encoding());
    assert_eq!(few, Err("topic list length mismatch".to_string()));

    let other = IShinobiInputSettler::decode_open(&vec![[0u8; 32], [9u8; 32]], &known_encoding());
    let expected = format!(
        "invalid signature hash for event \"Open(bytes32,(address,uint256,uint256,uint32,uint32,\
         address,uint256[2][],(bytes32,bytes32,uint256,bytes32,uint256,bytes32,bytes,bytes)[],\
         address,bytes))\": got 0x{}, expected 0x{}",
        "00".repeat(32),
        hex::encode(hash)
    );
    assert_eq!(other, Err(expected));

    assert!(IShinobiInputSettler::decode_open(&vec![hash, [9u8; 32]], &[1, 2, 3]).is_err());
}

/// An intent without inputs and outputs, with a length of its refund call.
fn with_refund_length(length: [u8; 32]) -> Vec<u8> {
    let mut data = Vec::new();
    let mut word = [0u8; 32];
    word[31] = 0x20;
    data.extend_from_slice(&word);
    for (i, value) in [(6usize, 0x140u16), (7, 0x160), (9, 0x180)] {
        while data.len() < 32 + 32 * i {
            data.extend_from_slice(&[0u8; 32]);
        }
        let mut word = [0u8; 32];
        word[30..].copy_from_slice(&value.to_be_bytes());
        data.extend_from_slice(&word);
    }
    data.extend_from_slice(&[0u8; 32]);
    data.extend_from_slice(&[0u8; 32]);
    data.extend_from_slice(&length);
    data
}

#[test]
fn lengths_that_lead_out_of_the_data() {
    let overrun = Err("ABI decoding failed: buffer overrun while deserializing".to_string());
    assert_eq!(with_refund_length([0u8; 32]).len(), 448);
    assert!(ShinobiIntentSol::abi_decode(&with_refund_length([0u8; 32])).is_ok());
    for low in [1u8, 32, 0xff] {
        let mut length = [0u8; 32];
        length[31] = low;
        assert_eq!(ShinobiIntentSol::abi_decode(&with_refund_length(length)), overrun);
    }
    for low in [0xc0u8, 0xe0, 0xe1, 0xff] {
        let mut length = [0u8; 32];
        for i in 24..31 {
            length[i] = 0xff;
        }
        length[31] = low;
        assert_eq!(ShinobiIntentSol::abi_decode(&with_refund_length(length)), overrun);
    }

    // The same for offsets, and in an output.
    for word in [0usize, 7, 8, 10, 15, 22, 23, 24, 25, 26] {
        let bad = with_low_bytes(word, &[0xff; 8]);
        assert_eq!(ShinobiIntentSol::abi_decode(&bad), overrun);
    }
    // For the number of inputs and outputs. What lies behind the offset of the only output, its
    // oracle, is taken for the offset of the next.
    let next = Err(format!(
        "type check failed for \"offset (usize)\" with data: {}",
        "03".repeat(32)
    ));
    for number in [0xffu32, 1_000_000] {
        let inputs = with_low_bytes(11, &number.to_be_bytes());
        assert_eq!(ShinobiIntentSol::abi_decode(&inputs), overrun);
        let outputs = with_low_bytes(14, &number.to_be_bytes());
        assert_eq!(ShinobiIntentSol::abi_decode(&outputs), next);
    }
}

/// The encoding of a known intent with a word that ends in other bytes.
fn with_low_bytes(word: usize, bytes: &[u8]) -> Vec<u8> {
    let mut data = known_encoding();
    let end = 32 * word + 32;
    data[end - bytes.len()..end].copy_from_slice(bytes);
    data
}

#[test]
fn lengths_that_no_machine_can_hold() {
    let too_large = |word: [u8; 32]| {
        Err(format!(
            "type check failed for \"offset (usize)\" with data: {}",
            hex::encode(word)
        ))
    };
    let refund = with_refund_length([0xff; 32]);
    assert_eq!(ShinobiIntentSol::abi_decode(&refund), too_large([0xff; 32]));
    for word in [0usize, 7, 8, 10, 11, 14, 15, 22, 23, 24, 25, 26] {
        let mut bad = known_encoding();
        bad[32 * word + 23] = 1;
        let mut shown = [0u8; 32];
        shown.copy_from_slice(&bad[32 * word..32 * word + 32]);
        assert_eq!(ShinobiIntentSol::abi_decode(&bad), too_large(shown));
    }
}

#[test]
fn lists_that_no_memory_can_hold() {
    // More than any memory.
    let overflow = Vec::<u64>::new().try_reserve(usize::MAX).unwrap_err().to_string();
    for word in [11usize, 14] {
        let bad = with_low_bytes(word, &[0xff; 8]);
        assert_eq!(ShinobiIntentSol::abi_decode(&bad), Err(overflow.clone()));
    }
    // More than is to be had.
    let much = (1u64 << 40).to_be_bytes();
    for word in [11usize, 14] {
        assert_eq!(
            ShinobiIntentSol::abi_decode(&with_low_bytes(word, &much)),
            Err("memory allocation failed because the memory allocator returned an error"
                .to_string())
        );
    }
}

#[test]
fn words_that_hold_more_than_they_are_for() {
    let hash = IShinobiInputSettler::open_signature_hash();
    // The user, the two deadlines and the two oracles: the first byte that has to be zero, and the
    // last one.
    for (word, last) in [(1usize, 11usize), (4, 27), (5, 27), (6, 11), (9, 11)] {
        for byte in [0, last] {
            let mut bad = known_encoding();
            bad[32 * word + byte] = 1;
            assert_eq!(
                ShinobiIntentSol::abi_decode(&bad),
                Err(format!(
                    "type check failed for \"ShinobiIntentSol\" with data: {}",
                    hex::encode(&bad)
                ))
            );
            // In an event the intent is the only member of a tuple.
            assert_eq!(
                IShinobiInputSettler::decode_open(&vec![hash, [9u8; 32]], &bad),
                Err(format!(
                    "type check failed for \"(ShinobiIntentSol)\" with data: {}20{}",
                    "00".repeat(31),
                    hex::encode(&bad)
                ))
            );
        }
    }
}

#[test]
fn the_decoder_says_what_is_wrong() {
    // Bytes behind the end.
    let mut longer = known_encoding();
    longer.extend_from_slice(&[0u8; 32]);
    assert_eq!(
        ShinobiIntentSol::abi_decode(&longer),
        Err("ABI decoding failed: reserialization did not match original".to_string())
    );
}
