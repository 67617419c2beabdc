use elo_streaks::{generate_win_streak_histogram, run_trials, run_trials_with_draws,
    simulate_games, simulate_games_with_draws, Game, Outcome, Player, Rating, SCALE};

fn game(white: &str, w_elo: u32, black: &str, b_elo: u32, outcome: Outcome) -> Game {
    Game {
        white: Player { name: white.to_string(), rating: Rating(w_elo) },
        black: Player { name: black.to_string(), rating: Rating(b_elo) },
        outcome,
    }
}

fn sample_series() -> Vec<Game> {
    vec![
        game("p", 1500, "q", 1500, Outcome::WhiteWin),
        game("q", 1480, "p", 1520, Outcome::Draw),
        game("p", 1510, "q", 1490, Outcome::BlackWin),
    ]
}

#[test]
fn fixed_draws_are_reproducible() {
    let games = sample_series();
    let raws: Vec<u64> = vec![500_000_000, 480_000_000, 510_000_000];
    let draws: Vec<u64> = vec![7, 450_000_000, 999_999_999];
    let first = simulate_games_with_draws(&games, &raws, &draws);
    let second = simulate_games_with_draws(&games, &raws, &draws);
    assert_eq!(first.len(), second.len());
    for (a, b) in first.iter().zip(second.iter()) {
        assert_eq!(a.outcome, b.outcome);
        assert_eq!(a.white.name, b.white.name);
        assert_eq!(a.black.name, b.black.name);
    }
}

#[test]
fn simulation_keeps_the_pairing() {
    let games = sample_series();
    let raws: Vec<u64> = vec![500_000_000, 480_000_000, 510_000_000];
    let sim = simulate_games(&games, &raws);
    assert_eq!(sim.len(), games.len());
    for (s, g) in sim.iter().zip(games.iter()) {
        assert_eq!(s.white.name, g.white.name);
        assert_eq!(s.black.name, g.black.name);
        assert_eq!(s.white.rating, g.white.rating);
        assert_eq!(s.black.rating, g.black.rating);
    }
}

#[test]
fn certain_favourite_always_wins() {
    // A maximal rating gap drives the draw probability to zero, and a
    // full logistic expectation leaves the whole scale to white: every
    // draw the generator produces must land in the white interval.
    let games = vec![
        game("p", u32::MAX, "q", 0, Outcome::Draw),
        game("p", u32::MAX, "q", 0, Outcome::BlackWin),
    ];
    let raws: Vec<u64> = vec![SCALE, SCALE];
    for _ in 0..20 {
        let sim = simulate_games(&games, &raws);
        for s in sim.iter() {
            assert_eq!(s.outcome, Outcome::WhiteWin);
        }
    }
}

#[test]
fn sampled_draws_decide_outcomes_exactly() {
    // Equal ratings at half expectation: white 410M, black 410M, draw 180M.
    let games = vec![
        game("p", 1500, "q", 1500, Outcome::Draw),
        game("p", 1500, "q", 1500, Outcome::Draw),
        game("p", 1500, "q", 1500, Outcome::Draw),
    ];
    let raws: Vec<u64> = vec![SCALE / 2; 3];
    let draws: Vec<u64> = vec![409_999_999, 410_000_000, 820_000_000];
    let sim = simulate_games_with_draws(&games, &raws, &draws);
    assert_eq!(sim[0].outcome, Outcome::WhiteWin);
    assert_eq!(sim[1].outcome, Outcome::BlackWin);
    assert_eq!(sim[2].outcome, Outcome::Draw);
}

#[test]
fn zero_trials_give_empty_histogram() {
    let games = sample_series();
    let raws: Vec<u64> = vec![500_000_000, 480_000_000, 510_000_000];
    let h = run_trials(&games, &raws, "p", 0);
    for k in 0..10usize {
        assert_eq!(h.count(k), 0);
    }
}

#[test]
fn driver_aggregate_equals_manual_merge() {
    let games = sample_series();
    let raws: Vec<u64> = vec![500_000_000, 480_000_000, 510_000_000];
    let trial_draws: Vec<Vec<u64>> = vec![
        vec![0, 0, 0],
        vec![999_999_999, 1, 420_000_000],
        vec![100, 900_000_000, 3],
    ];
    let aggregate = run_trials_with_draws(&games, &raws, "p", &trial_draws);
    let mut manual = elo_streaks::Histogram::new();
    for draws in trial_draws.iter() {
        let sim = simulate_games_with_draws(&games, &raws, draws);
        let h = generate_win_streak_histogram("p", &sim);
        manual = manual.merge(&h);
    }
    for k in 0..10usize {
        assert_eq!(aggregate.count(k), manual.count(k));
    }
}

#[test]
fn trials_accumulate_across_the_batch() {
    // Two trials of an unbeatable favourite: every trial is a full win
    // streak of length two, so the aggregate counts it twice.
    let games = vec![
        game("p", u32::MAX, "q", 0, Outcome::Draw),
        game("p", u32::MAX, "q", 0, Outcome::Draw),
    ];
    let raws: Vec<u64> = vec![SCALE, SCALE];
    let h = run_trials(&games, &raws, "p", 2);
    assert_eq!(h.count(2), 2);
    assert_eq!(h.count(1), 0);
}
