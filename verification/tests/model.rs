use elo_streaks::{calculate_expected_outcome, probability_of_draw, sample_outcome,
    ExpectedOutcome, Outcome, Rating, MAX_DRAW_PPB, SCALE};

#[test]
fn sums_to_one_exactly() {
    let raws: [u64; 6] = [0, 1, 123_456_789, 500_000_000, 999_999_999, SCALE];
    let pairs: [(u32, u32); 5] = [(0, 0), (1200, 1200), (2800, 900), (900, 2800), (u32::MAX, 0)];
    for &(a, b) in pairs.iter() {
        for &raw in raws.iter() {
            let e = calculate_expected_outcome(&Rating(a), &Rating(b), raw);
            assert_eq!(e.white + e.black + e.draw, SCALE);
        }
    }
}

#[test]
fn equal_ratings_are_symmetric() {
    let e = calculate_expected_outcome(&Rating(1500), &Rating(1500), SCALE / 2);
    assert_eq!(e.white, e.black);
    assert_eq!(e.draw, MAX_DRAW_PPB);
    assert_eq!(e.white, 410_000_000);
}

#[test]
fn draw_probability_decays_with_gap() {
    assert_eq!(probability_of_draw(&Rating(1500), &Rating(1500)), 180_000_000);
    assert_eq!(probability_of_draw(&Rating(1510), &Rating(1500)), 120_000_000);
    assert_eq!(probability_of_draw(&Rating(1600), &Rating(1500)), 30_000_000);
    assert_eq!(probability_of_draw(&Rating(1500), &Rating(1600)), 30_000_000);
    let mut last = u64::MAX;
    for gap in [0u32, 1, 5, 20, 100, 1000, 100_000] {
        let d = probability_of_draw(&Rating(1000 + gap), &Rating(1000));
        assert!(d <= last);
        last = d;
    }
}

#[test]
fn white_odds_grow_with_expectation() {
    let mut last: u64 = 0;
    for raw in [0u64, 100_000_000, 500_000_000, 900_000_000, SCALE] {
        let e = calculate_expected_outcome(&Rating(1500), &Rating(1450), raw);
        assert!(e.white >= last);
        last = e.white;
    }
}

#[test]
fn from_parts_enforces_the_invariant() {
    assert!(ExpectedOutcome::from_parts(410_000_000, 410_000_000, 180_000_000).is_some());
    assert!(ExpectedOutcome::from_parts(410_000_000, 410_000_000, 180_000_001).is_none());
    assert!(ExpectedOutcome::from_parts(0, 0, 0).is_none());
    assert!(ExpectedOutcome::from_parts(SCALE, 0, 0).is_some());
}

#[test]
fn sampler_partitions_the_scale() {
    let e = ExpectedOutcome::from_parts(410_000_000, 410_000_000, 180_000_000).unwrap();
    assert_eq!(sample_outcome(&e, 0), Outcome::WhiteWin);
    assert_eq!(sample_outcome(&e, 409_999_999), Outcome::WhiteWin);
    assert_eq!(sample_outcome(&e, 410_000_000), Outcome::BlackWin);
    assert_eq!(sample_outcome(&e, 819_999_999), Outcome::BlackWin);
    assert_eq!(sample_outcome(&e, 820_000_000), Outcome::Draw);
    assert_eq!(sample_outcome(&e, 999_999_999), Outcome::Draw);
}
