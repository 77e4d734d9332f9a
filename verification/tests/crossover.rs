//! The crossover operators: per-bit numeric selection, partition bit
//! masks, and element-wise gene-sequence crossover.

use evosnake::genetic::algorithms::{
    draw_partitions, mask_from_partitions, BitMask, GeneticCrossover, NumericCrossover, RATE_SCALE,
};
use evosnake::genetic::dyadic::GRID_UNIT;

fn bit_run_count(mask: u32) -> u32 {
    let mut runs: u32 = 1;
    let mut i: u32 = 1;
    while i < 32 {
        if (mask >> i) & 1 != (mask >> (i - 1)) & 1 {
            runs += 1;
        }
        i += 1;
    }
    runs
}

#[test]
fn numeric_crossover_selects_bits_by_mask() {
    let a: u32 = 0xFFFF_0000;
    let b: u32 = 0x0000_FFFF;
    let m: u32 = 0xFF00_FF00;
    // Mask bit one takes a's bit, mask bit zero takes b's bit.
    assert_eq!(a.crossover(b, m), 0xFF00_00FF);
    assert_eq!(a.crossover(b, 0xFFFF_FFFF), a);
    assert_eq!(a.crossover(b, 0), b);
}

#[test]
fn numeric_crossover_deterministic() {
    let a: u32 = 0xDEAD_BEEF;
    let b: u32 = 0x1234_5678;
    let m: u32 = 0x0F0F_0F0F;
    assert_eq!(a.crossover(b, m), a.crossover(b, m));
}

#[test]
fn numeric_crossover_identical_parents_identity() {
    let a: u32 = 0xCAFE_F00D;
    let mut m: u32 = 0;
    loop {
        assert_eq!(a.crossover(a, m), a);
        if m > u32::MAX - 0x0101_0101 {
            break;
        }
        m += 0x0101_0101;
    }
}

#[test]
fn mask_from_partitions_exact_patterns() {
    // Four zeros, twenty ones, eight zeros, most significant bit first.
    assert_eq!(mask_from_partitions(&vec![4, 20, 8]), 0x0FFF_FF00);
    // A single run of thirty-two zeros.
    assert_eq!(mask_from_partitions(&vec![32]), 0);
    // No leading zeros: all thirty-two bits ones.
    assert_eq!(mask_from_partitions(&vec![0, 32]), 0xFFFF_FFFF);
    // Zeros then ones split evenly.
    assert_eq!(mask_from_partitions(&vec![16, 16]), 0x0000_FFFF);
    // Empty runs in the middle collapse.
    assert_eq!(mask_from_partitions(&vec![8, 0, 0, 24]), 0x00FF_FFFF);
}

#[test]
fn draw_partitions_has_k_plus_one_runs_summing_to_thirty_two() {
    for k in [1u8, 2, 3, 7, 31] {
        let parts = draw_partitions(k);
        assert_eq!(parts.len(), k as usize + 1);
        let total: u32 = parts.iter().sum();
        assert_eq!(total, 32);
    }
}

#[test]
fn create_bit_mask_runs_bounded_by_intersections() {
    for _ in 0..200 {
        let mask = u32::create_bit_mask(2);
        // Three alternating runs at most; empty runs only reduce the count.
        assert!(bit_run_count(mask) <= 3);
    }
    for _ in 0..200 {
        let mask = u32::create_bit_mask(1);
        assert!(bit_run_count(mask) <= 2);
        // The first run carries zeros, so any ones sit at the low end.
        if mask != 0 {
            assert_eq!(mask & 1, 1);
        }
    }
}

#[test]
fn gene_crossover_preserves_length() {
    for n in [0usize, 1, 5, 24] {
        let a: Vec<u32> = (0..n as u32).collect();
        let b: Vec<u32> = (0..n as u32).map(|x| x ^ 0xFFFF).collect();
        let child = a.crossover(&b, 20_000);
        assert_eq!(child.len(), n);
        assert_eq!(a.len(), n);
        assert_eq!(b.len(), n);
    }
}

#[test]
fn gene_crossover_zero_rate_identical_parents_gives_parent() {
    let a: Vec<u32> = vec![0x3F80_0000, 0xC040_0000, 0, 0x7FC0_0000, 123];
    let b = a.clone();
    let child = a.crossover(&b, 0);
    assert_eq!(child, a);
}

#[test]
fn gene_crossover_zero_rate_mixes_only_parent_bits() {
    let a: Vec<u32> = vec![0xFFFF_0000; 8];
    let b: Vec<u32> = vec![0x00FF_FF00; 8];
    let child = a.crossover(&b, 0);
    for (i, c) in child.iter().enumerate() {
        // Every child bit is drawn from one of the parents: bits set in
        // both survive, bits set in neither never appear.
        assert_eq!(c & !(a[i] | b[i]), 0, "foreign bit at {i}");
        assert_eq!((a[i] & b[i]) & !c, 0, "common bit lost at {i}");
    }
}

#[test]
fn bit_mixing_legally_produces_nan_and_tolerates_it() {
    // Mixing sign and exponent bits can build a NaN out of ordinary
    // numbers: that is a property of bit-pattern crossover, not an error.
    let inf = f32::INFINITY.to_bits();
    let mixed = inf.crossover(1, 0xFF80_0000);
    assert_eq!(mixed, 0x7F80_0001);
    assert!(f32::from_bits(mixed).is_nan());

    let a: Vec<u32> = vec![
        f32::INFINITY.to_bits(),
        f32::NAN.to_bits(),
        (-0.0f32).to_bits(),
    ];
    let b: Vec<u32> = vec![
        f32::NEG_INFINITY.to_bits(),
        1.0f32.to_bits(),
        f32::MAX.to_bits(),
    ];
    let child = a.crossover(&b, 0);
    assert_eq!(child.len(), 3);
    for c in child {
        // Whatever came out is a plain bit pattern; reading it as a number
        // never crashes, NaN and infinities included.
        let _ = f32::from_bits(c);
    }
}

#[test]
fn gene_crossover_full_rate_draws_from_mutation_range() {
    // Parents far outside the mutation range: any surviving parent gene
    // would betray a missing mutation.
    let a: Vec<u32> = vec![100.0f32.to_bits(); 64];
    let b: Vec<u32> = vec![200.0f32.to_bits(); 64];
    let child = a.crossover(&b, RATE_SCALE);
    assert_eq!(child.len(), 64);
    for c in child {
        let v = f32::from_bits(c);
        assert!((-3.0..3.0).contains(&v), "gene {v} outside the mutation range");
        // Every replacement value sits exactly on the evenly spaced
        // mutation grid.
        assert_eq!((v * GRID_UNIT as f32).fract(), 0.0, "gene {v} off the grid");
    }
}
