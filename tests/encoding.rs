use tfhe_container::accumulator::{accumulator_polynomial, build_accumulator};
use tfhe_container::decoder::{closest_representable, decode};
use tfhe_container::lwe::{decrypt, encrypt, GlweSecretKey, LweSecretKey};

const DELTA_4: u64 = 1 << 61;
const DELTA_16: u64 = 1 << 59;

#[test]
fn accumulator_identity_over_four_messages() {
    let table: Vec<u64> = (0..4).collect();
    let acc = accumulator_polynomial(8, 4, DELTA_4, &table);
    let d = DELTA_4;
    assert_eq!(acc, vec![0, d, d, 2 * d, 2 * d, 3 * d, 3 * d, 0]);
    for i in 0..4usize {
        assert_eq!(acc[i * 2], table[i] * d);
    }
}

#[test]
fn accumulator_negates_first_half_box_and_rotates() {
    let table: Vec<u64> = vec![1, 2, 3, 4];
    let acc = accumulator_polynomial(8, 4, DELTA_4, &table);
    let d = DELTA_4;
    assert_eq!(acc, vec![d, 2 * d, 2 * d, 3 * d, 3 * d, 4 * d, 4 * d, d.wrapping_neg()]);
}

#[test]
fn accumulator_with_wider_boxes() {
    let table: Vec<u64> = vec![5, 9];
    let acc = accumulator_polynomial(8, 2, 1, &table);
    assert_eq!(acc, vec![5, 5, 9, 9, 9, 9, 5u64.wrapping_neg(), 5u64.wrapping_neg()]);
}

#[test]
fn accumulator_with_one_coefficient_per_box() {
    let table: Vec<u64> = vec![3, 1, 4, 1];
    let acc = accumulator_polynomial(4, 4, 10, &table);
    assert_eq!(acc, vec![30, 10, 40, 10]);
}

#[test]
fn accumulator_scaling_wraps() {
    let table: Vec<u64> = vec![2, 3];
    let acc = accumulator_polynomial(2, 2, 1 << 63, &table);
    assert_eq!(acc, vec![0, 1 << 63]);
}

#[test]
fn accumulator_doubling_over_sixteen_messages() {
    let table: Vec<u64> = (0..16).map(|x| (2 * x) % 16).collect();
    let acc = accumulator_polynomial(64, 16, DELTA_16, &table);
    for i in 0..16usize {
        assert_eq!(acc[i * 4], table[i].wrapping_mul(DELTA_16));
    }
    assert_eq!(acc[3 * 4], 6 * DELTA_16);
}

#[test]
fn build_accumulator_is_trivial_glwe() {
    let table: Vec<u64> = (0..4).collect();
    let glwe = build_accumulator(8, 3, 4, DELTA_4, &table);
    let d = DELTA_4;
    let mut expected = vec![0u64; 16];
    expected.extend_from_slice(&[0, d, d, 2 * d, 2 * d, 3 * d, 3 * d, 0]);
    assert_eq!(glwe, expected);
    let body_only = build_accumulator(8, 1, 4, DELTA_4, &table);
    assert_eq!(body_only, accumulator_polynomial(8, 4, DELTA_4, &table));
}

#[test]
fn closest_representable_rounds_to_nearest() {
    let step: u64 = 1 << 59;
    assert_eq!(closest_representable(6 * step + 12345, 5, 1), 6 * step);
    assert_eq!(closest_representable(6 * step - 1000, 5, 1), 6 * step);
    assert_eq!(closest_representable(6 * step + step / 2, 5, 1), 7 * step);
    assert_eq!(closest_representable(6 * step + step / 2 - 1, 5, 1), 6 * step);
    assert_eq!(closest_representable(u64::MAX, 5, 1), 0);
    assert_eq!(closest_representable(0, 5, 1), 0);
}

#[test]
fn closest_representable_with_several_levels() {
    // 3 levels of 7 bits keep the top 21 bits
    let step: u64 = 1 << 43;
    assert_eq!(closest_representable(5 * step + (step >> 1), 7, 3), 6 * step);
    assert_eq!(closest_representable(5 * step + (step >> 1) - 1, 7, 3), 5 * step);
    assert_eq!(closest_representable(1, 63, 1), 2);
    assert_eq!(closest_representable(4, 63, 1), 4);
    assert_eq!(closest_representable(3, 63, 1), 4);
}

#[test]
fn decode_recovers_doubled_message() {
    let noisy = 6 * DELTA_16 + 98765;
    assert_eq!(decode(noisy, 5, 1, DELTA_16), 6);
    let noisy_below = 6 * DELTA_16 - 98765;
    assert_eq!(decode(noisy_below, 5, 1, DELTA_16), 6);
    assert_eq!(decode(3 * DELTA_16, 5, 1, DELTA_16), 3);
}

#[test]
fn lwe_encrypt_then_decrypt() {
    let key = LweSecretKey::from_container(vec![1, 0, 1]);
    assert_eq!(key.lwe_dimension(), 3);
    let ct = encrypt(100, &key, &[5, 7, 11], 3);
    assert_eq!(ct, vec![5, 7, 11, 119]);
    assert_eq!(decrypt(&ct, &key), 103);
}

#[test]
fn lwe_arithmetic_wraps() {
    let key = LweSecretKey::from_container(vec![1, 1, 1]);
    let ct = encrypt(0, &key, &[u64::MAX, 0, 2], 0);
    assert_eq!(ct, vec![u64::MAX, 0, 2, 1]);
    assert_eq!(decrypt(&ct, &key), 0);
    let ct2 = encrypt(u64::MAX, &key, &[1, 1, 1], 2);
    assert_eq!(decrypt(&ct2, &key), 1);
}

#[test]
fn lwe_empty_key() {
    let key = LweSecretKey::from_container(Vec::new());
    let ct = encrypt(42, &key, &[], 1);
    assert_eq!(ct, vec![43]);
    assert_eq!(decrypt(&ct, &key), 43);
}

#[test]
fn glwe_key_viewed_as_lwe_key_decrypts_alike() {
    let polys: Vec<Vec<u64>> = vec![vec![1, 0, 1, 1], vec![0, 1, 0, 1]];
    let glwe = GlweSecretKey::from_polynomials(&polys, 4);
    assert_eq!(glwe.data, vec![1, 0, 1, 1, 0, 1, 0, 1]);
    let view = glwe.into_lwe_secret_key();
    let flat = LweSecretKey::from_container(polys.concat());
    let mask: Vec<u64> = vec![9, 8, 7, 6, 5, 4, 3, 2];
    let a = encrypt(1 << 60, &view, &mask, 17);
    let b = encrypt(1 << 60, &flat, &mask, 17);
    assert_eq!(a, b);
    assert_eq!(decrypt(&a, &flat), (1 << 60) + 17);
    assert_eq!(decrypt(&b, &view), (1 << 60) + 17);
}
