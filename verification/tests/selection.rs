//! The skewed parent-selection draw.

use evosnake::genetic::population::{
    generate_random_number_tending_towards_smaller, SELECTION_BIAS,
};

#[test]
fn skewed_draw_stays_within_bounds() {
    for _ in 0..500 {
        let r = generate_random_number_tending_towards_smaller(0, 9, SELECTION_BIAS);
        assert!(r <= 9);
    }
    for _ in 0..200 {
        let r = generate_random_number_tending_towards_smaller(3, 17, SELECTION_BIAS);
        assert!((3..=17).contains(&r));
    }
}

#[test]
fn skewed_draw_on_a_single_point_range() {
    for _ in 0..50 {
        assert_eq!(generate_random_number_tending_towards_smaller(4, 4, SELECTION_BIAS), 4);
    }
}

#[test]
fn skewed_draw_prefers_the_low_side() {
    // With the bias at nine tenths toward the lower (fitter) indices, the
    // low half of a wide range must be hit far more often than the high
    // half; a thousand draws make a tie astronomically unlikely.
    let mut low: u32 = 0;
    let mut high: u32 = 0;
    for _ in 0..1000 {
        let r = generate_random_number_tending_towards_smaller(0, 99, SELECTION_BIAS);
        assert!(r <= 99);
        if r < 50 {
            low += 1;
        } else {
            high += 1;
        }
    }
    assert!(low > high, "low {low} not favoured over high {high}");
}
