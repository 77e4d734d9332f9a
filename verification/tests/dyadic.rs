//! The dyadic gene encoder against real single-precision semantics, and
//! the ranges of freshly drawn genes.

use evosnake::genetic::algorithms::draw_mutation_gene;
use evosnake::genetic::dyadic::{encode_dyadic, GRID_UNIT};
use evosnake::genetic::genome::Genome;

#[test]
fn encode_dyadic_matches_ieee_bit_patterns() {
    assert_eq!(encode_dyadic(0, false), 0.0f32.to_bits());
    assert_eq!(encode_dyadic(0, true), 0.0f32.to_bits());
    assert_eq!(encode_dyadic(GRID_UNIT, false), 1.0f32.to_bits());
    assert_eq!(encode_dyadic(GRID_UNIT, true), (-1.0f32).to_bits());
    assert_eq!(encode_dyadic(3 * GRID_UNIT, false), 3.0f32.to_bits());
    assert_eq!(encode_dyadic(3 * GRID_UNIT, true), (-3.0f32).to_bits());
    assert_eq!(encode_dyadic(6 * GRID_UNIT, false), 6.0f32.to_bits());
    assert_eq!(encode_dyadic(GRID_UNIT / 2, false), 0.5f32.to_bits());
    assert_eq!(encode_dyadic(GRID_UNIT / 4, true), (-0.25f32).to_bits());
    assert_eq!(encode_dyadic(GRID_UNIT + GRID_UNIT / 2, false), 1.5f32.to_bits());
    assert_eq!(encode_dyadic(2 * GRID_UNIT + GRID_UNIT / 4, true), (-2.25f32).to_bits());
    // The smallest nonzero grid magnitude.
    assert_eq!(encode_dyadic(1, false), (1.0f32 / GRID_UNIT as f32).to_bits());
}

#[test]
fn encode_dyadic_every_grid_point_is_exact() {
    // Across a sample of the grid, the encoding round-trips through real
    // single-precision arithmetic without any rounding.
    let mut m: u32 = 0;
    while m <= 6 * GRID_UNIT {
        let expected = m as f32 / GRID_UNIT as f32;
        assert_eq!(f32::from_bits(encode_dyadic(m, false)), expected);
        assert_eq!(f32::from_bits(encode_dyadic(m, true)), -expected);
        m += 4093;
    }
}

#[test]
fn mutation_genes_lie_in_the_mutation_range() {
    for _ in 0..500 {
        let g = f32::from_bits(draw_mutation_gene());
        assert!((-3.0..3.0).contains(&g), "mutation gene {g} out of range");
    }
}

#[test]
fn initial_genes_lie_in_the_initialisation_range() {
    let genome = Genome::new();
    for seq in [
        &genome.hidden_weight,
        &genome.hidden_bias,
        &genome.output_weight,
        &genome.output_bias,
    ] {
        for &bits in seq {
            let g = f32::from_bits(bits);
            assert!((-1.0..1.0).contains(&g), "initial gene {g} out of range");
        }
    }
}
