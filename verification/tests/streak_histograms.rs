use elo_streaks::{generate_win_streak_histogram, Game, Histogram, Outcome, Player, Rating};

fn game(white: &str, black: &str, outcome: Outcome) -> Game {
    Game {
        white: Player { name: white.to_string(), rating: Rating(1500) },
        black: Player { name: black.to_string(), rating: Rating(1500) },
        outcome,
    }
}

/// Games from the named player's perspective: `true` is a win for them.
fn series(player: &str, results: &[char]) -> Vec<Game> {
    results
        .iter()
        .map(|&r| match r {
            'W' => game(player, "other", Outcome::WhiteWin),
            'L' => game(player, "other", Outcome::BlackWin),
            'D' => game(player, "other", Outcome::Draw),
            _ => panic!("unknown result code"),
        })
        .collect()
}

#[test]
fn streaks_flush_on_breaks_and_at_the_end() {
    let games = series("p", &['W', 'W', 'L', 'W', 'D', 'W', 'W', 'W']);
    let h = generate_win_streak_histogram("p", &games);
    assert_eq!(h.count(2), 1);
    assert_eq!(h.count(3), 1);
    assert_eq!(h.count(1), 1);
    assert_eq!(h.count(4), 0);
    assert_eq!(h.count(8), 0);
}

#[test]
fn empty_series_gives_empty_histogram() {
    let games: Vec<Game> = Vec::new();
    let h = generate_win_streak_histogram("p", &games);
    assert_eq!(h.extent(), 0);
    for k in 0..10usize {
        assert_eq!(h.count(k), 0);
    }
}

#[test]
fn no_wins_gives_empty_histogram() {
    let games = series("p", &['L', 'D', 'L', 'D', 'D']);
    let h = generate_win_streak_histogram("p", &games);
    for k in 0..10usize {
        assert_eq!(h.count(k), 0);
    }
}

#[test]
fn all_wins_give_one_streak_of_full_length() {
    let games = series("p", &['W', 'W', 'W', 'W']);
    let h = generate_win_streak_histogram("p", &games);
    assert_eq!(h.count(4), 1);
    for k in 0..4usize {
        assert_eq!(h.count(k), 0);
    }
    assert_eq!(h.count(5), 0);
}

#[test]
fn wins_as_black_count_too() {
    let games = vec![
        game("other", "p", Outcome::BlackWin),
        game("other", "p", Outcome::BlackWin),
        game("p", "other", Outcome::BlackWin),
    ];
    let h = generate_win_streak_histogram("p", &games);
    assert_eq!(h.count(2), 1);
    assert_eq!(h.count(1), 0);
    assert_eq!(h.count(3), 0);
}

#[test]
fn merge_sums_pointwise_in_either_order() {
    let mut h1 = Histogram::new();
    h1.record(1);
    h1.record(1);
    h1.record(3);
    let mut h2 = Histogram::new();
    h2.record(1);
    for _ in 0..5 {
        h2.record(2);
    }
    let m12 = h1.merge(&h2);
    let m21 = h2.merge(&h1);
    for k in 0..10usize {
        let expected = match k {
            1 => 3,
            2 => 5,
            3 => 1,
            _ => 0,
        };
        assert_eq!(m12.count(k), expected);
        assert_eq!(m21.count(k), expected);
    }
    assert_eq!(m12.extent(), m21.extent());
}

#[test]
fn merge_is_associative_on_values() {
    let mut h1 = Histogram::new();
    h1.record(2);
    let mut h2 = Histogram::new();
    h2.record(5);
    h2.record(2);
    let mut h3 = Histogram::new();
    h3.record(1);
    let left = h1.merge(&h2).merge(&h3);
    let right = h1.merge(&h2.merge(&h3));
    for k in 0..8usize {
        assert_eq!(left.count(k), right.count(k));
    }
    assert_eq!(left.extent(), right.extent());
}

#[test]
fn merge_checked_refuses_overflow() {
    let mut h1 = Histogram::new();
    for _ in 0..3 {
        h1.record(1);
    }
    let h2 = Histogram::new();
    assert!(h1.merge_checked(&h2).is_some());
    assert_eq!(h1.merge_checked(&h2).unwrap().count(1), 3);
}

#[test]
fn empty_histogram_is_merge_identity() {
    let mut h = Histogram::new();
    h.record(2);
    h.record(7);
    let merged = h.merge(&Histogram::new());
    for k in 0..10usize {
        assert_eq!(merged.count(k), h.count(k));
    }
}
