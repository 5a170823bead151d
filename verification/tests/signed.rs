use eth_raw_tx::{Address, RawTransaction, SignatureError, Uint256};

fn hex(text: &str) -> Vec<u8> {
    let digits: Vec<u8> = text
        .bytes()
        .map(|c| match c {
            b'0'..=b'9' => c - b'0',
            b'a'..=b'f' => c - b'a' + 10,
            _ => panic!("not a hex digit"),
        })
        .collect();
    assert!(digits.len() % 2 == 0);
    digits.chunks(2).map(|pair| pair[0] * 16 + pair[1]).collect()
}

fn transfer() -> RawTransaction {
    RawTransaction {
        nonce: Uint256::from_u64(9),
        to: Some(Address { bytes: [0x35; 20] }),
        value: Uint256::from_u64(1_000_000_000_000_000_000),
        gas_price: Uint256::from_u64(20_000_000_000),
        gas: Uint256::from_u64(21_000),
        data: Vec::new(),
    }
}

fn transfer_signature() -> Vec<u8> {
    let mut signature = vec![0u8];
    signature.extend(hex("28ef61340bd939bc2195fe537567866003e1a15d3c71ff63e1590620aa636276"));
    signature.extend(hex("67cbe9d8997f761aecb703304b3800ccf555c9f3dc64214b297fb1966a3b6d83"));
    signature
}

#[test]
fn signed_plain_transfer() {
    let bytes = transfer().encode_signed_tx(transfer_signature(), 1).unwrap();
    assert_eq!(
        bytes,
        hex(
            "f86c098504a817c800825208943535353535353535353535353535353535353535880de0b6b3a76400008025a028ef61340bd939bc2195fe537567866003e1a15d3c71ff63e1590620aa636276a067cbe9d8997f761aecb703304b3800ccf555c9f3dc64214b297fb1966a3b6d83"
        )
    );
}

#[test]
fn signed_with_recovery_byte_one() {
    let mut signature = transfer_signature();
    signature[0] = 1;
    let bytes = transfer().encode_signed_tx(signature, 1).unwrap();
    assert_eq!(
        bytes,
        hex(
            "f86c098504a817c800825208943535353535353535353535353535353535353535880de0b6b3a76400008026a028ef61340bd939bc2195fe537567866003e1a15d3c71ff63e1590620aa636276a067cbe9d8997f761aecb703304b3800ccf555c9f3dc64214b297fb1966a3b6d83"
        )
    );
}

#[test]
fn signature_of_64_bytes_is_turned_down() {
    let outcome = transfer().encode_signed_tx(vec![1u8; 64], 1);
    assert_eq!(outcome, Err(SignatureError::InvalidLength(64)));
}

#[test]
fn signature_of_66_bytes_is_turned_down() {
    let outcome = transfer().encode_signed_tx(vec![1u8; 66], 1);
    assert_eq!(outcome, Err(SignatureError::InvalidLength(66)));
}

#[test]
fn empty_signature_is_turned_down() {
    let outcome = RawTransaction::default().encode_signed_tx(Vec::new(), 1);
    assert_eq!(outcome, Err(SignatureError::InvalidLength(0)));
}

#[test]
fn all_zero_scalars_become_empty() {
    let bytes = RawTransaction::default().encode_signed_tx(vec![0u8; 65], 1).unwrap();
    assert_eq!(bytes, hex("c9808080808080258080"));
}

#[test]
fn zero_first_scalar_alone_becomes_empty() {
    let mut signature = vec![0u8; 65];
    signature[64] = 9;
    let bytes = RawTransaction::default().encode_signed_tx(signature, 1).unwrap();
    assert_eq!(bytes, hex("c9808080808080258009"));
}

#[test]
fn zero_second_scalar_alone_becomes_empty() {
    let mut signature = vec![0u8; 65];
    signature[1] = 0x80;
    let bytes = RawTransaction::default().encode_signed_tx(signature, 1).unwrap();
    let mut expected = hex("e980808080808025a080");
    expected.extend(vec![0u8; 31]);
    expected.push(0x80);
    assert_eq!(bytes, expected);
}

#[test]
fn recovery_value_beyond_64_bits() {
    let mut signature = vec![0u8; 65];
    signature[0] = 1;
    signature[32] = 5;
    signature[63] = 1;
    let bytes = RawTransaction::default().encode_signed_tx(signature, u64::MAX).unwrap();
    assert_eq!(bytes, hex("d48080808080808902000000000000002205820100"));
}

#[test]
fn signed_form_differs_from_the_signature() {
    let signature = transfer_signature();
    let bytes = transfer().encode_signed_tx(signature.clone(), 1).unwrap();
    assert_ne!(bytes, signature);
}

#[test]
fn signed_missing_recipient_differs_from_the_zero_address() {
    let none = RawTransaction::default();
    let mut zero = RawTransaction::default();
    zero.to = Some(Address { bytes: [0; 20] });
    let none_bytes = none.encode_signed_tx(vec![0u8; 65], 1).unwrap();
    let zero_bytes = zero.encode_signed_tx(vec![0u8; 65], 1).unwrap();
    assert_eq!(none_bytes[4], 0x80);
    assert_eq!(zero_bytes[4], 0x94);
    assert_eq!(&zero_bytes[5..25], &[0u8; 20][..]);
    assert_eq!(zero_bytes.len(), none_bytes.len() + 20);
}
