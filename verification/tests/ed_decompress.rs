use std::sync::Arc;

use curve25519_dalek::edwards::CompressedEdwardsY;
use num::BigUint;
use shard_trace::operations::field::params::{
    ED25519_D, ED25519_MODULUS, ED25519_SQRT_EXPONENT, ED25519_SQRT_M1,
};
use shard_trace::runtime::program::Program;
use shard_trace::runtime::record::ExecutionRecord;
use shard_trace::syscall::precompiles::edwards::ed_decompress::{
    EdDecompressChip, EdDecompressEvent,
};
use shard_trace::utils::ec::ed25519_sqrt;

fn modulus() -> BigUint {
    BigUint::from_bytes_le(&ED25519_MODULUS)
}

fn words_le(bytes: &[u8]) -> Vec<u32> {
    bytes.chunks(4).map(|c| u32::from_le_bytes([c[0], c[1], c[2], c[3]])).collect()
}

/// Runs the precompile on a compressed point whose sign bit is handed over
/// apart from `y`.
fn decompress(compressed: &[u8; 32]) -> Option<EdDecompressEvent> {
    let sign = u32::from(compressed[31] >> 7);
    let mut y = *compressed;
    y[31] &= 0x7f;
    EdDecompressChip::new().execute(2, 40, 0x100, sign, &words_le(&y), &vec![0xdead_beef; 8])
}

/// Writes the sign of `x` back into `y`.
fn recompress(event: &EdDecompressEvent) -> Vec<u8> {
    let mut out = event.y_bytes.clone();
    out[31] = (out[31] & 0x7f) | ((event.decompressed_x_bytes[0] & 1) << 7);
    out
}

#[test]
fn the_constants_are_those_of_ed25519() {
    let p = modulus();
    assert_eq!(p, (BigUint::from(1u32) << 255) - BigUint::from(19u32));
    let d = BigUint::from_bytes_le(&ED25519_D);
    // d = -121665 / 121666
    assert_eq!((d * BigUint::from(121666u32) + BigUint::from(121665u32)) % &p, BigUint::from(0u32));
    let i = BigUint::from_bytes_le(&ED25519_SQRT_M1);
    assert_eq!((&i * &i + BigUint::from(1u32)) % &p, BigUint::from(0u32));
    let e = BigUint::from_bytes_le(&ED25519_SQRT_EXPONENT);
    assert_eq!(e * BigUint::from(8u32), &p + BigUint::from(3u32));
}

#[test]
fn decompress_of_the_identity_writes_zero() {
    let mut compressed = [0u8; 32];
    compressed[0] = 1;
    let event = decompress(&compressed).unwrap();
    assert!(!event.sign);
    assert_eq!(event.decompressed_x_bytes, vec![0u8; 32]);
    assert!(event.x_memory_records.iter().all(|r| r.value == 0));
    assert_eq!(event.x_memory_records.len(), 8);
    assert_eq!(event.x_memory_records[0].addr, 0x100);
    assert_eq!(event.x_memory_records[7].addr, 0x100 + 28);
    assert_eq!(event.y_memory_records[0].addr, 0x100 + 32);
    assert_eq!(event.x_memory_records[3].prev_value, 0xdead_beef);
}

#[test]
fn test_ed_decompress() {
    // The generator of Ed25519 in compressed form: y = 4/5, and an even x.
    let mut compressed = [0x66u8; 32];
    compressed[0] = 0x58;
    let event = decompress(&compressed).unwrap();
    assert!(!event.sign);
    let x = BigUint::parse_bytes(
        b"216936d3cd6e53fec0a4e231fdd6dc5c692cc7609525a7b2c9562d608f25d51a",
        16,
    )
    .unwrap();
    assert_eq!(BigUint::from_bytes_le(&event.decompressed_x_bytes), x);
    assert_eq!(recompress(&event), compressed.to_vec());

    // The negative of the generator has the other root.
    compressed[31] |= 0x80;
    let event = decompress(&compressed).unwrap();
    assert!(event.sign);
    assert_eq!(BigUint::from_bytes_le(&event.decompressed_x_bytes), modulus() - &x);
    assert_eq!(recompress(&event), compressed.to_vec());

    // One event, one row; the trace is filled up to a power of two.
    let chip = EdDecompressChip::new();
    let mut input = ExecutionRecord::new(2, Arc::new(Program::new(Vec::new(), 0, 0)));
    input.ed_decompress_events.push(event);
    let mut output = ExecutionRecord::new(2, Arc::new(Program::new(Vec::new(), 0, 0)));
    assert!(chip.included(&input));
    let trace = chip.generate_trace(&input, &mut output);
    assert_eq!(chip.name(), "EdDecompress");
    assert_eq!(trace.width, chip.width());
    assert_eq!(trace.values.len(), 358);
    assert_eq!(&trace.values[..5], &[1, 2, 40, 0x100, 1]);
    // The last two field elements of the row are the even root and its
    // negative.
    let root: Vec<u8> = trace.values[294..326].iter().map(|&c| c as u8).collect();
    let neg: Vec<u8> = trace.values[326..358].iter().map(|&c| c as u8).collect();
    assert_eq!(BigUint::from_bytes_le(&root), x);
    assert_eq!(BigUint::from_bytes_le(&neg), modulus() - &x);
    assert!(output.byte_lookups.contains_key(&2));
    assert_eq!(chip.num_extra_cycles(), 0);
}

#[test]
fn decompress_rejects_a_y_without_a_point() {
    // y = 2 is the y of no point of the curve.
    let mut compressed = [0u8; 32];
    compressed[0] = 2;
    assert!(decompress(&compressed).is_none());
}

#[test]
fn decompress_round_trips_over_many_points() {
    let mut found = 0;
    for seed in 0u32..200 {
        let mut compressed = [0u8; 32];
        for (i, b) in compressed.iter_mut().enumerate() {
            *b = (seed.wrapping_mul(2654435761).wrapping_add(i as u32 * 40503) >> 7) as u8;
        }
        if let Some(event) = decompress(&compressed) {
            found += 1;
            assert_eq!(recompress(&event), compressed.to_vec());
        }
    }
    assert!(found > 50);
}

#[test]
fn the_square_root_is_even_and_squares_back() {
    let p = modulus();
    for n in [0u32, 1, 4, 9, 16, 1234567] {
        let a = (BigUint::from(n) * BigUint::from(n)) % &p;
        let r = ed25519_sqrt(&a).unwrap();
        assert_eq!((&r * &r) % &p, a);
        assert!(!r.bit(0));
    }
    // 2 is not a square modulo 2^255 - 19.
    assert!(ed25519_sqrt(&BigUint::from(2u32)).is_none());
}

#[test]
fn padding_row_of_the_edwards_chip_holds_a_square_root() {
    let chip = EdDecompressChip::new();
    let row = chip.padding_row();
    assert_eq!(row.len(), 358);
    assert!(row[..101].iter().all(|&c| c == 0));
    let p = modulus();
    let u_div_v: Vec<u8> = row[262..294].iter().map(|&c| c as u8).collect();
    let x: Vec<u8> = row[294..326].iter().map(|&c| c as u8).collect();
    let u_div_v = BigUint::from_bytes_le(&u_div_v);
    let x = BigUint::from_bytes_le(&x);
    // For y = 0: u / v = -1, and x is a root of it.
    assert_eq!(u_div_v, &p - BigUint::from(1u32));
    assert_eq!((&x * &x) % &p, u_div_v);
}

#[test]
fn decompress_agrees_with_the_curve_library() {
    let mut found = 0;
    for seed in 0u32..300 {
        let mut compressed = [0u8; 32];
        for (i, b) in compressed.iter_mut().enumerate() {
            *b = (seed.wrapping_mul(40503).wrapping_add(i as u32 * 2654435761) >> 11) as u8;
        }
        let theirs = CompressedEdwardsY(compressed).decompress();
        let ours = decompress(&compressed);
        assert_eq!(ours.is_some(), theirs.is_some(), "{:?}", compressed);
        if let (Some(event), Some(point)) = (ours, theirs) {
            found += 1;
            assert_eq!(recompress(&event), point.compress().to_bytes().to_vec());
        }
    }
    assert!(found > 100);
}
