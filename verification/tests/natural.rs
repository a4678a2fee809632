use opis::Int;
use transaction::Natural;

#[test]
fn zero_is_one_zero_digit() {
    assert_eq!(Natural::zero().to_bytes(), vec![0u8]);
    assert_eq!(Natural::zero().to_bytes(), Int::zero().to_bytes());
}

#[test]
fn from_bytes_keeps_minimal_digits() {
    assert_eq!(Natural::from_bytes(&vec![3, 232]).to_bytes(), vec![3u8, 232]);
    assert_eq!(Natural::from_bytes(&vec![255]).to_bytes(), vec![255u8]);
    assert_eq!(Natural::from_bytes(&vec![1, 0, 0]).to_bytes(), vec![1u8, 0, 0]);
}

#[test]
fn from_bytes_drops_leading_zeros() {
    assert_eq!(Natural::from_bytes(&vec![0, 0, 5]).to_bytes(), vec![5u8]);
    assert_eq!(Natural::from_bytes(&vec![0, 1, 0]).to_bytes(), vec![1u8, 0]);
    assert_eq!(Natural::from_bytes(&vec![0, 0, 0, 0, 0, 0, 0, 0, 0, 9, 8]).to_bytes(), vec![9u8, 8]);
}

#[test]
fn from_bytes_of_zeros_is_zero() {
    assert_eq!(Natural::from_bytes(&vec![0]).to_bytes(), vec![0u8]);
    assert_eq!(Natural::from_bytes(&vec![0, 0, 0]).to_bytes(), vec![0u8]);
    assert_eq!(Natural::from_bytes(&vec![0, 0, 0]), Natural::zero());
}

#[test]
fn from_bytes_of_nothing_has_no_digits() {
    let empty: Vec<u8> = Vec::new();
    assert_eq!(Natural::from_bytes(&empty).to_bytes(), empty);
    assert_ne!(Natural::from_bytes(&empty), Natural::zero());
}

#[test]
fn digits_are_those_of_opis() {
    let samples: Vec<Vec<u8>> = vec![
        vec![],
        vec![0],
        vec![1],
        vec![0, 0, 0, 7],
        vec![128, 0, 0, 0, 0, 0, 0, 0, 1],
        vec![0, 255, 254, 253],
        vec![1; 40],
    ];
    for sample in samples {
        assert_eq!(Natural::from_bytes(&sample).to_bytes(), Int::from_bytes(&sample).to_bytes());
    }
}

#[test]
fn digits_read_again_are_unchanged() {
    let first = Natural::from_bytes(&vec![0, 0, 17, 0, 200]);
    let second = Natural::from_bytes(&first.to_bytes());
    assert_eq!(first, second);
    assert_eq!(second.to_bytes(), vec![17u8, 0, 200]);
}

#[test]
fn clone_of_a_natural_is_equal() {
    let n = Natural::from_bytes(&vec![9, 9, 9]);
    assert_eq!(n.clone(), n);
}
