use eth_raw_tx::{Address, RawTransaction, Uint256};

fn hex(text: &str) -> Vec<u8> {
    let digits: Vec<u8> = text
        .bytes()
        .map(|c| match c {
            b'0'..=b'9' => c - b'0',
            b'a'..=b'f' => c - b'a' + 10,
            _ => panic!("not a hex digit"),
        })
        .collect();
    assert!(digits.len() % 2 == 0);
    digits.chunks(2).map(|pair| pair[0] * 16 + pair[1]).collect()
}

#[test]
fn empty_transaction_is_nine_short_items() {
    let bytes = RawTransaction::default().encode_for_signing(1);
    assert_eq!(bytes, vec![0xc9, 0x80, 0x80, 0x80, 0x80, 0x80, 0x80, 0x01, 0x80, 0x80]);
}

#[test]
fn plain_transfer_bytes_to_sign() {
    let tx = RawTransaction {
        nonce: Uint256::from_u64(9),
        to: Some(Address { bytes: [0x35; 20] }),
        value: Uint256::from_u64(1_000_000_000_000_000_000),
        gas_price: Uint256::from_u64(20_000_000_000),
        gas: Uint256::from_u64(21_000),
        data: Vec::new(),
    };
    assert_eq!(
        tx.encode_for_signing(1),
        hex("ec098504a817c800825208943535353535353535353535353535353535353535880de0b6b3a764000080018080")
    );
}

#[test]
fn hash_is_the_digest_of_the_bytes_to_sign() {
    let mut tx = RawTransaction::default();
    tx.nonce = Uint256::from_u64(77);
    tx.data = vec![1, 2, 3];
    let bytes = tx.encode_for_signing(3);
    assert_eq!(tx.hash(3), tiny_keccak::keccak256(&bytes).to_vec());
}

#[test]
fn zero_encodes_as_the_empty_string() {
    let bytes = RawTransaction::default().encode_for_signing(0);
    assert_eq!(bytes, hex("c9808080808080808080"));
}

#[test]
fn numbers_carry_no_leading_zero_byte() {
    let tx = RawTransaction {
        nonce: Uint256::from_u64(0x7f),
        to: None,
        value: Uint256::from_u64(1),
        gas_price: Uint256::from_u64(0x80),
        gas: Uint256::from_u64(0x0400),
        data: vec![0x00],
    };
    assert_eq!(tx.encode_for_signing(0), hex("cc7f8180820400800100808080"));
}

#[test]
fn recipient_slot_is_empty_without_a_recipient() {
    let bytes = RawTransaction::default().encode_for_signing(1);
    assert_eq!(bytes[4], 0x80);
    assert_eq!(bytes.len(), 10);
}

#[test]
fn recipient_slot_holds_the_zero_address_whole() {
    let mut tx = RawTransaction::default();
    tx.to = Some(Address { bytes: [0; 20] });
    assert_eq!(
        tx.encode_for_signing(1),
        hex("dd8080809400000000000000000000000000000000000000008080018080")
    );
}

#[test]
fn largest_chain_id_takes_eight_bytes() {
    assert_eq!(
        RawTransaction::default().encode_for_signing(u64::MAX),
        hex("d180808080808088ffffffffffffffff8080")
    );
}

#[test]
fn long_data_gets_a_length_of_its_own() {
    let tx = RawTransaction {
        nonce: Uint256::from_u64(1),
        to: None,
        value: Uint256::from_u64(4),
        gas_price: Uint256::from_u64(2),
        gas: Uint256::from_u64(3),
        data: vec![0xab; 300],
    };
    let bytes = tx.encode_for_signing(7);
    assert_eq!(&bytes[..11], &hex("f901370102038004b9012c")[..]);
    assert_eq!(&bytes[11..311], &[0xab; 300][..]);
    assert_eq!(&bytes[311..], &[0x07, 0x80, 0x80][..]);
}

#[test]
fn payload_of_56_bytes_gets_a_long_list_prefix() {
    let mut tx = RawTransaction::default();
    tx.data = vec![0xcc; 47];
    let bytes = tx.encode_for_signing(1);
    assert_eq!(bytes.len(), 58);
    assert_eq!(&bytes[..2], &[0xf8, 0x38][..]);
    tx.data = vec![0xcc; 46];
    let bytes = tx.encode_for_signing(1);
    assert_eq!(bytes.len(), 56);
    assert_eq!(bytes[0], 0xf7);
}
