use eth_raw_tx::signature::{prepare_signature, prepare_signature_part};
use eth_raw_tx::SignatureError;

#[test]
fn recovery_value_for_byte_zero_on_chain_one() {
    let signature = vec![0u8; 65];
    let (v, _, _) = prepare_signature(&signature, 1).unwrap();
    assert_eq!(v, 37);
}

#[test]
fn recovery_value_for_byte_one_on_chain_one() {
    let mut signature = vec![0u8; 65];
    signature[0] = 1;
    let (v, _, _) = prepare_signature(&signature, 1).unwrap();
    assert_eq!(v, 38);
}

#[test]
fn recovery_value_on_chain_zero() {
    let signature = vec![0u8; 65];
    let (v, _, _) = prepare_signature(&signature, 0).unwrap();
    assert_eq!(v, 35);
}

#[test]
fn recovery_value_does_not_wrap() {
    let mut signature = vec![0u8; 65];
    signature[0] = 255;
    let (v, _, _) = prepare_signature(&signature, u64::MAX).unwrap();
    assert_eq!(v, 36_893_488_147_419_103_520);
}

#[test]
fn scalars_are_split_and_stripped() {
    let mut signature = vec![0u8; 65];
    signature[0] = 1;
    signature[31] = 0xaa;
    signature[32] = 0x00;
    signature[33] = 0x01;
    signature[64] = 0x02;
    let (_, r, s) = prepare_signature(&signature, 1).unwrap();
    assert_eq!(r, vec![0xaa, 0x00]);
    let mut expected_s = vec![0x01];
    expected_s.extend(vec![0u8; 30]);
    expected_s.push(0x02);
    assert_eq!(s, expected_s);
}

#[test]
fn zero_scalars_come_out_empty() {
    let (_, r, s) = prepare_signature(&vec![0u8; 65], 1).unwrap();
    assert!(r.is_empty());
    assert!(s.is_empty());
}

#[test]
fn short_signature_is_turned_down() {
    assert_eq!(prepare_signature(&vec![0u8; 64], 1), Err(SignatureError::InvalidLength(64)));
}

#[test]
fn long_signature_is_turned_down() {
    assert_eq!(prepare_signature(&vec![0u8; 66], 1), Err(SignatureError::InvalidLength(66)));
}

#[test]
fn part_of_zeros_becomes_empty() {
    let mut part = vec![0u8; 32];
    assert_eq!(prepare_signature_part(&mut part), Ok(()));
    assert_eq!(part, Vec::<u8>::new());
}

#[test]
fn part_with_only_a_last_byte_keeps_it() {
    let mut part = vec![0u8; 32];
    part[31] = 7;
    assert_eq!(prepare_signature_part(&mut part), Ok(()));
    assert_eq!(part, vec![7]);
}

#[test]
fn part_keeps_zeros_after_the_first_digit() {
    let mut part = vec![0u8; 32];
    part[29] = 1;
    assert_eq!(prepare_signature_part(&mut part), Ok(()));
    assert_eq!(part, vec![1, 0, 0]);
}

#[test]
fn full_part_is_unchanged() {
    let mut part = vec![0xffu8; 32];
    assert_eq!(prepare_signature_part(&mut part), Ok(()));
    assert_eq!(part, vec![0xffu8; 32]);
}

#[test]
fn part_of_another_length_is_turned_down() {
    let mut short = vec![0u8, 1, 2];
    assert_eq!(prepare_signature_part(&mut short), Err(SignatureError::InvalidPartLength(3)));
    assert_eq!(short, vec![0u8, 1, 2]);
    let mut long = vec![0u8; 33];
    assert_eq!(prepare_signature_part(&mut long), Err(SignatureError::InvalidPartLength(33)));
    assert_eq!(long, vec![0u8; 33]);
}
