use tx_circuit::bytes::trim_leading_zeros;
use tx_circuit::field::{random_linear_combine, Field};
use tx_circuit::transaction::Address;
use tx_circuit::u256::{reversed, U256};

/// The field of scalars of the curve BN254.
fn bn254() -> Field {
    Field {
        modulus: U256([
            0x43e1_f593_f000_0001,
            0x2833_e848_79b9_7091,
            0xb850_45b6_8181_585d,
            0x3064_4e72_e131_a029,
        ]),
    }
}

fn small(modulus: u64) -> Field {
    Field { modulus: U256::from_u64(modulus) }
}

#[test]
fn byte_orders() {
    let x = U256([0x0807_0605_0403_0201, 0, 0, 0xff00_0000_0000_0000]);
    let le = x.to_le_bytes();
    assert_eq!(le[..9], [1, 2, 3, 4, 5, 6, 7, 8, 0]);
    assert_eq!(le[31], 0xff);
    let be = x.to_be_bytes();
    assert_eq!(be[24..], [8, 7, 6, 5, 4, 3, 2, 1]);
    assert_eq!(be[0], 0xff);
    assert_eq!(reversed(&le), be);
    assert_eq!(U256::from_le_bytes(&le), x);
    assert_eq!(U256::from_be_bytes(&be), x);
}

#[test]
fn minimal_bytes() {
    assert_eq!(U256::zero().to_minimal_be_bytes(), Vec::<u8>::new());
    assert_eq!(U256::from_u64(0x0102_00).to_minimal_be_bytes(), vec![1, 2, 0]);
    assert_eq!(U256([0, 0, 0, 1]).to_minimal_be_bytes().len(), 25);
    assert_eq!(trim_leading_zeros(&[0, 0, 5, 0]), vec![5, 0]);
}

#[test]
fn wrapping() {
    let max = U256([u64::MAX; 4]);
    assert_eq!(max.overflowing_add(&U256::from_u64(2)), (U256::from_u64(1), true));
    assert_eq!(U256::from_u64(1).overflowing_sub(&U256::from_u64(2)), (max, true));
    assert_eq!(U256([0, 1, 0, 0]).overflowing_sub(&U256::from_u64(1)), (U256::from_u64(u64::MAX), false));
    assert_eq!(U256([1, 1, 0, 0]).halve(), (U256([1 << 63, 0, 0, 0]), true));
}

#[test]
fn comparing() {
    assert!(U256([9, 0, 0, 0]).less_than(&U256([0, 1, 0, 0])));
    assert!(!U256([0, 0, 1, 0]).less_than(&U256([5, 5, 0, 0])));
    assert!(!U256([1, 2, 3, 4]).less_than(&U256([1, 2, 3, 4])));
    assert!(U256([1, 2, 3, 4]).equals(&U256([1, 2, 3, 4])));
    assert!(!U256([1, 2, 3, 4]).equals(&U256([1, 2, 3, 5])));
    assert!(U256::zero().is_zero());
    assert!(!U256([0, 0, 0, 1]).is_zero());
}

#[test]
fn field_arithmetic() {
    let field = bn254();
    let (last, _) = field.modulus.overflowing_sub(&U256::from_u64(1));
    assert_eq!(field.product(&last, &last), U256::from_u64(1));
    assert_eq!(field.sum(&last, &U256::from_u64(1)), U256::zero());
    assert_eq!(field.sum(&last, &U256::from_u64(5)), U256::from_u64(4));
    assert_eq!(field.product(&U256::from_u64(1 << 63), &U256::from_u64(6)), U256([0, 3, 0, 0]));
    assert_eq!(field.product(&last, &U256::zero()), U256::zero());
    assert_eq!(field.from_u64(u64::MAX), U256::from_u64(u64::MAX));
    assert_eq!(small(7).from_u64(100), U256::from_u64(2));
    assert_eq!(small(7).product(&U256::from_u64(5), &U256::from_u64(6)), U256::from_u64(2));
    assert_eq!(field.from_repr(&field.modulus.to_le_bytes()), None);
    assert_eq!(field.from_repr(&last.to_le_bytes()), Some(last));
}

#[test]
fn linear_combinations() {
    let mut bytes = [0u8; 32];
    bytes[0] = 1;
    bytes[1] = 2;
    bytes[2] = 3;
    let field = bn254();
    assert_eq!(random_linear_combine(&field, bytes, &U256::from_u64(10)), U256::from_u64(321));
    assert_eq!(random_linear_combine(&field, bytes, &U256::zero()), U256::from_u64(1));
    assert_eq!(
        random_linear_combine(&small(7), bytes, &U256::from_u64(3)),
        U256::from_u64((1 + 2 * 3 + 3 * 9) % 7),
    );
}

#[test]
fn combining_at_256_gives_the_number() {
    let x = U256([0xdead_beef, 17, 0, 0x0102_0304]);
    assert_eq!(random_linear_combine(&bn254(), x.to_le_bytes(), &U256::from_u64(256)), x);
}

#[test]
fn addresses_as_elements() {
    let mut bytes = [0u8; 20];
    bytes[18] = 1;
    bytes[19] = 2;
    assert_eq!(Address(bytes).to_scalar(&bn254()), Some(U256::from_u64(258)));
    assert_eq!(Address(bytes).to_scalar(&small(258)), None);
    assert_eq!(Address::zero().to_scalar(&small(2)), Some(U256::zero()));
    assert_eq!(
        Address([0xff; 20]).to_scalar(&bn254()),
        Some(U256([u64::MAX, u64::MAX, 0xffff_ffff, 0])),
    );
    assert_eq!(Address(bytes).to_vec(), bytes.to_vec());
}
