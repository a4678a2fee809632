use transaction::signature::verify;
use transaction::Natural;
use transaction::Transaction;

const SECRET: [u8; 32] = [7u8; 32];

fn signed() -> Transaction {
    let mut tx = Transaction::new();
    tx.chain = Natural::from_bytes(&vec![1]);
    tx.counter = Natural::from_bytes(&vec![42]);
    tx.recipient = [9u8; 32];
    tx.sender = fides::ed25519::public_key(&SECRET);
    tx.solar_limit = Natural::from_bytes(&vec![1, 0]);
    tx.solar_price = Natural::from_bytes(&vec![3]);
    tx.value = Natural::from_bytes(&vec![1, 0, 0, 0]);
    tx.signature = fides::ed25519::sign(&tx.body_hash(), &SECRET);
    tx
}

#[test]
fn a_signed_transaction_verifies() {
    assert!(signed().verify());
}

#[test]
fn a_signed_transaction_verifies_after_a_round_trip() {
    let tx = signed();
    let back = Transaction::from_bytes(&tx.to_bytes()).unwrap();
    assert!(back.verify());
    assert_eq!(back.hash(), tx.hash());
}

#[test]
fn a_changed_field_does_not_verify() {
    let mut tx = signed();
    tx.chain = Natural::from_bytes(&vec![2]);
    assert!(!tx.verify());
    let mut tx = signed();
    tx.counter = Natural::from_bytes(&vec![43]);
    assert!(!tx.verify());
    let mut tx = signed();
    tx.recipient[0] = 8;
    assert!(!tx.verify());
    let mut tx = signed();
    tx.solar_limit = Natural::from_bytes(&vec![1, 1]);
    assert!(!tx.verify());
    let mut tx = signed();
    tx.solar_price = Natural::from_bytes(&vec![4]);
    assert!(!tx.verify());
    let mut tx = signed();
    tx.value = Natural::from_bytes(&vec![1, 0, 0, 1]);
    assert!(!tx.verify());
}

#[test]
fn another_sender_does_not_verify() {
    let mut tx = signed();
    tx.sender = fides::ed25519::public_key(&[8u8; 32]);
    assert!(!tx.verify());
}

#[test]
fn a_changed_signature_does_not_verify() {
    let mut tx = signed();
    tx.signature[0] ^= 1;
    assert!(!tx.verify());
    let mut tx = signed();
    tx.signature[40] ^= 1;
    assert!(!tx.verify());
}

#[test]
fn a_signature_by_another_key_does_not_verify() {
    let mut tx = signed();
    tx.signature = fides::ed25519::sign(&tx.body_hash(), &[8u8; 32]);
    assert!(!tx.verify());
}

#[test]
fn a_sender_that_is_no_key_does_not_verify() {
    let mut count = 0;
    for first in 0..=255u8 {
        let mut key = [0u8; 32];
        key[0] = first;
        if ed25519_dalek::PublicKey::from_bytes(&key).is_err() {
            let mut tx = signed();
            tx.sender = key;
            assert!(!tx.verify());
            count += 1;
        }
    }
    assert!(count > 0);
    let mut tx = signed();
    tx.sender = [0u8; 32];
    tx.sender[0] = 2;
    assert!(ed25519_dalek::PublicKey::from_bytes(&tx.sender).is_err());
    assert!(!tx.verify());
}

#[test]
fn a_signature_with_a_high_bit_set_does_not_verify() {
    for bit in [0x20u8, 0x40, 0x80, 0xe0] {
        let mut tx = signed();
        tx.signature[63] |= bit;
        assert!(ed25519_dalek::Signature::from_bytes(&tx.signature).is_err());
        assert!(!tx.verify());
    }
}

#[test]
fn the_zero_transaction_does_not_verify() {
    assert!(!Transaction::new().verify());
}

#[test]
fn verify_is_that_of_fides_on_keys_and_signatures() {
    let tx = signed();
    let digest = tx.body_hash();
    assert!(verify(&digest, &tx.sender, &tx.signature));
    assert_eq!(
        verify(&digest, &tx.sender, &tx.signature),
        fides::ed25519::verify(&digest, &tx.sender, &tx.signature)
    );
    let other = [1u8; 32];
    assert!(!verify(&other, &tx.sender, &tx.signature));
    assert_eq!(
        verify(&other, &tx.sender, &tx.signature),
        fides::ed25519::verify(&other, &tx.sender, &tx.signature)
    );
}

#[test]
fn the_signature_of_a_signed_transaction_is_pinned() {
    let mut tx = Transaction::new();
    tx.sender = fides::ed25519::public_key(&SECRET);
    let expected_key: [u8; 32] = [
        234, 74, 108, 99, 226, 156, 82, 10, 190, 245, 80, 123, 19, 46, 197, 249, 149, 71, 118,
        174, 190, 190, 123, 146, 66, 30, 234, 105, 20, 70, 210, 44,
    ];
    assert_eq!(tx.sender, expected_key);
    tx.signature = fides::ed25519::sign(&tx.body_hash(), &SECRET);
    let expected_hash: [u8; 32] = [
        92, 251, 253, 230, 228, 109, 55, 185, 205, 231, 90, 100, 224, 66, 12, 100, 203, 116, 49,
        8, 219, 67, 218, 135, 246, 109, 200, 232, 178, 37, 100, 36,
    ];
    assert_eq!(tx.hash(), expected_hash);
    assert!(tx.verify());
}
