use std::collections::HashMap;
use std::sync::Arc;

use bls12_381::G1Affine;
use group::{Curve, Group};
use k256::elliptic_curve::sec1::ToEncodedPoint;
use num::BigUint;
use rand::rngs::StdRng;
use rand::SeedableRng;
use shard_trace::operations::field::params::{
    CurveType, BLS12381_GENERATOR_X, BLS12381_MODULUS, BLS12381_SQRT_EXPONENT,
    SECP256K1_GENERATOR_X, SECP256K1_MODULUS, SECP256K1_SQRT_EXPONENT,
};
use shard_trace::runtime::program::Program;
use shard_trace::runtime::record::ExecutionRecord;
use shard_trace::syscall::precompiles::weierstrass::weierstrass_decompress::{
    WeierstrassDecompressChip,
};

fn words_of_be(bytes: &[u8]) -> Vec<u32> {
    let mut le = bytes.to_vec();
    le.reverse();
    le.chunks(4).map(|c| u32::from_le_bytes([c[0], c[1], c[2], c[3]])).collect()
}

/// The `y` of the point with the big-endian `x`, big-endian.
fn decompress(curve: CurveType, x_be: &[u8], is_odd: bool) -> Option<Vec<u8>> {
    let chip = WeierstrassDecompressChip::new(curve);
    let words = words_of_be(x_be);
    let prev = vec![0u32; words.len()];
    let event = chip.create_decompress_event(1, 5, 0x200, is_odd, &words, &prev)?;
    let mut y = event.decompressed_y_bytes.clone();
    y.reverse();
    Some(y)
}

/// Decompresses a compressed point of G1 as a guest program does: the flags
/// are taken off, and of the two roots the one is kept that the sort flag
/// asks for.
fn decompress_g1(compressed: &[u8; 48]) -> [u8; 96] {
    let mut out = [0u8; 96];
    if compressed[0] & 0x40 != 0 {
        out[0] = 0x40;
        return out;
    }
    let largest = compressed[0] & 0x20 != 0;
    let mut x = *compressed;
    x[0] &= 0x1f;
    let p = BigUint::from_bytes_le(&BLS12381_MODULUS);
    let mut y = decompress(CurveType::Bls12381, &x, false).unwrap();
    let is_largest = BigUint::from_bytes_be(&y) > (&p - BigUint::from_bytes_be(&y));
    if is_largest != largest {
        y = decompress(CurveType::Bls12381, &x, true).unwrap();
    }
    out[..48].copy_from_slice(&x);
    out[48..].copy_from_slice(&y);
    out
}

const CANDIDATES: [[u8; 48]; 4] = [
    [
        128, 181, 135, 148, 52, 27, 78, 148, 13, 235, 10, 222, 148, 47, 2, 89, 248, 37, 76, 33,
        223, 74, 74, 102, 121, 191, 228, 14, 144, 134, 65, 196, 196, 179, 29, 52, 188, 151, 130,
        217, 19, 140, 56, 237, 23, 143, 187, 17,
    ],
    [
        166, 149, 173, 50, 93, 252, 126, 17, 145, 251, 201, 241, 134, 245, 142, 255, 66, 166, 52,
        2, 151, 49, 177, 131, 128, 255, 137, 191, 66, 196, 100, 164, 44, 184, 202, 85, 178, 0,
        240, 81, 245, 127, 30, 24, 147, 198, 135, 89,
    ],
    [
        179, 44, 55, 73, 219, 90, 162, 144, 118, 142, 170, 188, 197, 226, 44, 223, 102, 32, 166,
        101, 39, 215, 91, 115, 175, 209, 23, 20, 243, 170, 185, 166, 196, 140, 186, 162, 114, 52,
        88, 7, 0, 214, 47, 175, 129, 52, 248, 110,
    ],
    [
        128, 183, 213, 204, 76, 81, 8, 121, 165, 14, 143, 54, 218, 155, 196, 74, 62, 142, 33, 208,
        87, 222, 166, 154, 164, 110, 63, 127, 138, 93, 182, 225, 19, 233, 159, 107, 33, 26, 109,
        200, 54, 243, 158, 202, 205, 126, 190, 5,
    ],
];

#[test]
fn the_constants_are_those_of_the_curves() {
    let p = BigUint::from_bytes_le(&SECP256K1_MODULUS);
    assert_eq!(
        p,
        (BigUint::from(1u32) << 256) - (BigUint::from(1u32) << 32) - BigUint::from(977u32)
    );
    let e = BigUint::from_bytes_le(&SECP256K1_SQRT_EXPONENT);
    assert_eq!(e * BigUint::from(4u32), &p + BigUint::from(1u32));
    let gx = k256::AffinePoint::GENERATOR.to_encoded_point(false);
    let gx = BigUint::from_bytes_be(gx.x().unwrap());
    assert_eq!(BigUint::from_bytes_le(&SECP256K1_GENERATOR_X), gx);

    let p = BigUint::from_bytes_le(&BLS12381_MODULUS);
    let e = BigUint::from_bytes_le(&BLS12381_SQRT_EXPONENT);
    assert_eq!(e * BigUint::from(4u32), &p + BigUint::from(1u32));
    let g = G1Affine::generator().to_uncompressed();
    assert_eq!(BigUint::from_bytes_le(&BLS12381_GENERATOR_X), BigUint::from_bytes_be(&g[..48]));
}

#[test]
fn test_weierstrass_bls_decompress_risc_v_program() {
    for compressed_g1 in &CANDIDATES[..2] {
        let mut expected = G1Affine::from_compressed(compressed_g1).unwrap().to_uncompressed();
        expected[0] &= 0b_0001_1111;

        // The parity that is asked for is taken from the sort flag.
        let sign = (compressed_g1[0] & 0b_0010_0000) >> 5 == 0;
        let mut compressed = *compressed_g1;
        compressed[0] &= 0b_0001_1111;

        // The slot holds the compressed point as the upper half of a number
        // of 96 bytes, most significant byte last.
        let memory_pointer = 100u32;
        let chip = WeierstrassDecompressChip::new(CurveType::Bls12381);
        let event = chip
            .create_decompress_event(
                1,
                0,
                memory_pointer,
                sign,
                &words_of_be(&compressed),
                &vec![0; 12],
            )
            .unwrap();
        let mut memory = HashMap::new();
        for record in &event.x_memory_records {
            memory.insert(record.addr, record.value);
        }
        for record in &event.y_memory_records {
            memory.insert(record.addr, record.value);
        }

        let mut decompressed_g1 = vec![];
        // The decompressed point takes 96 bytes or 24 words.
        for i in 0..24 {
            decompressed_g1.push(*memory.get(&(memory_pointer + i * 4)).unwrap());
        }
        let mut decompressed_g1: Vec<u8> =
            decompressed_g1.iter().flat_map(|w: &u32| w.to_le_bytes()).collect();
        decompressed_g1.reverse();

        assert_eq!(decompressed_g1, expected.to_vec(), "Failed on {:?}", compressed_g1);
    }
}

#[test]
fn test_weierstrass_secp256k1_decompress() {
    let mut rng = StdRng::seed_from_u64(2);

    let secret_key = k256::SecretKey::random(&mut rng);
    let public_key = secret_key.public_key();
    let encoded = public_key.to_encoded_point(false);
    let decompressed = encoded.as_bytes();
    let compressed = public_key.to_sec1_bytes();

    let is_odd = compressed[0] == 3;
    let y = decompress(CurveType::Secp256k1, &compressed[1..], is_odd).unwrap();
    let mut result = [0; 65];
    result[0] = 4;
    result[1..33].copy_from_slice(&compressed[1..]);
    result[33..].copy_from_slice(&y);
    assert_eq!(result, decompressed);
}

#[test]
fn test_weierstrass_bls12381_decompress() {
    let mut rng = StdRng::seed_from_u64(2);

    let point = bls12_381::G1Projective::random(&mut rng);
    let pt_affine = point.to_affine();
    let pt_compressed = pt_affine.to_compressed();
    let pt_uncompressed = pt_affine.to_uncompressed();

    let result = decompress_g1(&pt_compressed);
    assert_eq!(result, pt_uncompressed);
}

#[test]
fn test_weierstrass_bls12381_decompress_candidates() {
    for candidate in &CANDIDATES[..2] {
        let pt_compressed = candidate;
        let pt_affine = bls12_381::G1Affine::from_compressed(candidate).unwrap();
        let pt_uncompressed = pt_affine.to_uncompressed();

        let result = decompress_g1(pt_compressed);
        assert_eq!(result, pt_uncompressed);
    }
}

#[test]
fn test_weierstrass_bls12381_decompress_infinity_point_elf() {
    let compressed = G1Affine::identity().to_compressed();
    let expected = G1Affine::from_compressed(&compressed).unwrap().to_uncompressed();

    let result = decompress_g1(&compressed);
    assert_eq!(expected, result);

    // The slot of the point at infinity holds x = 0; the chip decompresses it
    // like any other x and finds a root of b.
    let y = decompress(CurveType::Bls12381, &[0u8; 48], false).unwrap();
    let y = BigUint::from_bytes_be(&y);
    let p = BigUint::from_bytes_le(&BLS12381_MODULUS);
    assert_eq!((&y * &y) % &p, BigUint::from(4u32));
    assert!(!y.bit(0));
}

#[test]
fn secp256k1_decompress_of_the_generator() {
    let g = k256::AffinePoint::GENERATOR;
    let compressed = g.to_encoded_point(true);
    let uncompressed = g.to_encoded_point(false);
    assert_eq!(compressed.as_bytes()[0], 2);
    let y = decompress(CurveType::Secp256k1, &compressed.as_bytes()[1..], false).unwrap();
    assert_eq!(&y[..], &uncompressed.as_bytes()[33..]);
    // The other parity gives the negative.
    let p = BigUint::from_bytes_le(&SECP256K1_MODULUS);
    let neg = decompress(CurveType::Secp256k1, &compressed.as_bytes()[1..], true).unwrap();
    assert_eq!(BigUint::from_bytes_be(&neg), &p - BigUint::from_bytes_be(&y));
}

#[test]
fn weierstrass_decompress_rejects_an_x_without_a_point() {
    // x = 5 gives x^3 + 7 = 132, which is no square modulo the prime of
    // secp256k1.
    let mut x = [0u8; 32];
    x[31] = 5;
    assert!(decompress(CurveType::Secp256k1, &x, false).is_none());
}

#[test]
fn weierstrass_trace_has_real_rows_then_the_generator() {
    let chip = WeierstrassDecompressChip::new(CurveType::Secp256k1);
    assert_eq!(chip.name(), "Secp256k1Decompress");
    assert_eq!(WeierstrassDecompressChip::new(CurveType::Bls12381).name(), "Bls12381Decompress");
    assert_eq!(chip.width(), 269);
    assert_eq!(WeierstrassDecompressChip::new(CurveType::Bls12381).width(), 397);

    let g = k256::AffinePoint::GENERATOR.to_encoded_point(false);
    let words = words_of_be(g.x().unwrap());
    let mut input = ExecutionRecord::new(1, Arc::new(Program::new(Vec::new(), 0, 0)));
    for clk in 0..3 {
        let event = chip
            .create_decompress_event(1, clk, 0x40, true, &words, &vec![0; 8])
            .unwrap();
        assert_eq!(event.x_memory_records[0].addr, 0x40 + 32);
        assert_eq!(event.y_memory_records[0].addr, 0x40);
        input.secp256k1_decompress_events.push(event);
    }
    assert!(chip.included(&input));
    assert!(!WeierstrassDecompressChip::new(CurveType::Bls12381).included(&input));
    let mut output = ExecutionRecord::new(1, Arc::new(Program::new(Vec::new(), 0, 0)));
    let trace = chip.generate_trace(&input, &mut output);
    assert_eq!(trace.width, 269);
    assert_eq!(trace.values.len(), 4 * 269);
    for (row, clk) in [(0usize, 0u32), (1, 1), (2, 2)] {
        assert_eq!(&trace.values[row * 269..row * 269 + 5], &[1, 1, clk, 0x40, 1]);
    }
    // The padding row holds the generator's x where x is read, and a y on the
    // curve.
    let padding = &trace.values[3 * 269..];
    assert_eq!(padding, &chip.padding_row()[..]);
    assert!(padding[..5].iter().all(|&c| c == 0));
    let x: Vec<u8> = padding[5..37].iter().map(|&c| c as u8).collect();
    assert_eq!(x, SECP256K1_GENERATOR_X.to_vec());
    let y: Vec<u8> = padding[5 + 96 + 96..5 + 96 + 128].iter().map(|&c| c as u8).collect();
    let y = BigUint::from_bytes_le(&y);
    let gy = BigUint::from_bytes_be(g.y().unwrap());
    let p = BigUint::from_bytes_le(&SECP256K1_MODULUS);
    assert!(y == gy || y == &p - &gy);
    // The last eight columns are the bits of the least significant byte of y.
    let bits = &padding[261..269];
    let lsb = y.to_bytes_le()[0];
    for (i, &bit) in bits.iter().enumerate() {
        assert_eq!(bit, u32::from((lsb >> i) & 1));
    }
}
