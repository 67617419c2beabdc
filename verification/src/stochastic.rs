//! The stochastic sampler and the batch-simulation driver.
//!
//! A single game outcome is drawn by partitioning the probability scale
//! `[0, SCALE)` into three contiguous sub-intervals in a fixed order —
//! white win, black win, draw — and seeing where the uniform draw
//! lands.  A series is simulated with one fresh draw per game, keeping
//! each game's pairing; a batch of trials aggregates each trial's
//! win-streak histogram by pointwise summation.

use vstd::prelude::*;
use rand::Rng;
use crate::chess::{Game, GameView, Outcome, games_view};
use crate::elo::{ExpectedOutcome, SCALE, calculate_expected_outcome, spec_expected_outcome,
    spec_gap};
use crate::histogram::Histogram;
use crate::streaks::{generate_win_streak_histogram, spec_participates, spec_streaks};

verus! {

/// Where a uniform draw in `[0, SCALE)` lands in the fixed partition
/// `[0, white)` → white win, `[white, white + black)` → black win,
/// `[white + black, SCALE)` → draw.
pub open spec fn spec_sample(e: ExpectedOutcome, draw: u64) -> Outcome {
    if draw < e.white {
        Outcome::WhiteWin
    } else if draw < e.white + e.black {
        Outcome::BlackWin
    } else {
        Outcome::Draw
    }
}

/// Draws one outcome from the distribution `e`, using the uniform draw
/// `draw`: the sub-interval ordering is fixed, so a fixed draw sequence
/// reproduces a fixed outcome sequence.
pub fn sample_outcome(e: &ExpectedOutcome, draw: u64) -> (o: Outcome)
    requires
        e.wf(),
        draw < SCALE,
    ensures
        o == spec_sample(*e, draw),
{
    if draw < e.white {
        Outcome::WhiteWin
    } else if draw < e.white + e.black {
        Outcome::BlackWin
    } else {
        Outcome::Draw
    }
}

/// Relies on `rand::thread_rng` and `rand::Rng::gen_range`: a uniform
/// draw from the given range, which is non-empty here, so the call
/// cannot panic.  Nothing more is assumed of a random value than its
/// bound.
#[verifier::external_body]
fn fresh_draw() -> (d: u64)
    ensures
        d < SCALE,
{
    rand::thread_rng().gen_range(0..SCALE)
}

/// A vector of `n` independent uniform draws, one per game of a trial.
fn fresh_draws(n: usize) -> (ds: Vec<u64>)
    ensures
        ds@.len() == n,
        forall|i: int| 0 <= i < n ==> ds@[i] < SCALE,
{
    let mut ds: Vec<u64> = Vec::new();
    let mut i: usize = 0;
    while i < n
        invariant
            0 <= i <= n,
            ds@.len() == i,
            forall|j: int| 0 <= j < i ==> ds@[j] < SCALE,
        decreases n - i,
    {
        ds.push(fresh_draw());
        i += 1;
    }
    ds
}

/// The simulated counterpart of one game: the same pairing, with the
/// outcome sampled from the model at the supplied draw.
pub open spec fn spec_simulated_game(g: GameView, p_white_raw: u64, draw: u64) -> GameView {
    GameView {
        white: g.white,
        black: g.black,
        outcome: spec_sample(
            spec_expected_outcome(spec_gap(g.white.rating, g.black.rating), p_white_raw as int),
            draw,
        ),
    }
}

/// One simulated series: index-wise, the simulated counterpart of each
/// input game.
pub open spec fn spec_simulate(games: Seq<GameView>, p_raws: Seq<u64>, draws: Seq<u64>) -> Seq<
    GameView,
> {
    Seq::new(games.len(), |i: int| spec_simulated_game(games[i], p_raws[i], draws[i]))
}

/// Simulates a series against a supplied draw sequence: same length and
/// index-wise pairing as `actual`, outcome `i` sampled at `draws[i]`.
/// The result is a function of the inputs alone, which is what makes a
/// simulation reproducible from a recorded draw sequence.
///
/// `p_white_raws[i]` is the logistic Elo expectation for game `i`'s
/// pairing, in ppb, as `calculate_expected_outcome` expects.
pub fn simulate_games_with_draws(actual: &Vec<Game>, p_white_raws: &Vec<u64>, draws: &Vec<u64>) -> (
    sim: Vec<Game>)
    requires
        p_white_raws@.len() == actual@.len(),
        draws@.len() == actual@.len(),
        forall|i: int| 0 <= i < actual@.len() ==> p_white_raws@[i] <= SCALE,
        forall|i: int| 0 <= i < actual@.len() ==> draws@[i] < SCALE,
    ensures
        sim@.len() == actual@.len(),
        games_view(sim@) == spec_simulate(games_view(actual@), p_white_raws@, draws@),
{
    let ghost gv = games_view(actual@);
    let mut sim: Vec<Game> = Vec::new();
    let mut i: usize = 0;
    while i < actual.len()
        invariant
            0 <= i <= actual@.len(),
            gv == games_view(actual@),
            p_white_raws@.len() == actual@.len(),
            draws@.len() == actual@.len(),
            forall|j: int| 0 <= j < actual@.len() ==> p_white_raws@[j] <= SCALE,
            forall|j: int| 0 <= j < actual@.len() ==> draws@[j] < SCALE,
            sim@.len() == i,
            forall|j: int|
                0 <= j < i ==> sim@[j]@ == spec_simulated_game(
                    gv[j],
                    p_white_raws@[j],
                    draws@[j],
                ),
        decreases actual@.len() - i,
    {
        let g = &actual[i];
        let e = calculate_expected_outcome(&g.white.rating, &g.black.rating, p_white_raws[i]);
        let o = sample_outcome(&e, draws[i]);
        let simulated = Game { white: g.white.clone(), black: g.black.clone(), outcome: o };
        sim.push(simulated);
        i += 1;
    }
    proof {
        assert(games_view(sim@) =~= spec_simulate(gv, p_white_raws@, draws@));
    }
    sim
}

/// Simulates one series with fresh independent draws: same length and
/// pairing as `actual`, and the outcomes are those of the model at some
/// in-range draw sequence — which draws came up is all that is left
/// open.
pub fn simulate_games(actual: &Vec<Game>, p_white_raws: &Vec<u64>) -> (sim: Vec<Game>)
    requires
        p_white_raws@.len() == actual@.len(),
        forall|i: int| 0 <= i < actual@.len() ==> p_white_raws@[i] <= SCALE,
    ensures
        sim@.len() == actual@.len(),
        forall|i: int|
            0 <= i < actual@.len() ==> (#[trigger] sim@[i])@.white == actual@[i]@.white && sim@[i]@.black
                == actual@[i]@.black,
        exists|draws: Seq<u64>|
            #![auto]
            draws.len() == actual@.len() && (forall|i: int| 0 <= i < draws.len() ==> draws[i]
                < SCALE) && games_view(sim@) == spec_simulate(
                games_view(actual@),
                p_white_raws@,
                draws,
            ),
{
    let draws = fresh_draws(actual.len());
    let sim = simulate_games_with_draws(actual, p_white_raws, &draws);
    proof {
        assert(draws@.len() == actual@.len() && (forall|i: int|
            0 <= i < draws@.len() ==> draws@[i] < SCALE) && games_view(sim@) == spec_simulate(
            games_view(actual@),
            p_white_raws@,
            draws@,
        ));
        assert forall|i: int| 0 <= i < actual@.len() implies (#[trigger] sim@[i])@.white
            == actual@[i]@.white && sim@[i]@.black == actual@[i]@.black by {
            assert(sim@[i]@ == games_view(sim@)[i]);
            assert(games_view(sim@)[i] == spec_simulated_game(
                games_view(actual@)[i],
                p_white_raws@[i],
                draws@[i],
            ));
            assert(games_view(actual@)[i] == actual@[i]@);
        }
    }
    sim
}

/// The aggregate count for streak length `k` over a sequence of trials:
/// trial `t` is the series simulated at `draws[t]`, and its streak
/// histogram's count for `k` joins the sum.
pub open spec fn spec_trials_count(
    games: Seq<GameView>,
    p_raws: Seq<u64>,
    name: Seq<char>,
    draws: Seq<Seq<u64>>,
    k: int,
) -> int
    decreases draws.len(),
{
    if draws.len() == 0 {
        0
    } else {
        spec_trials_count(games, p_raws, name, draws.drop_last(), k) + spec_streaks(
            spec_simulate(games, p_raws, draws.last()),
            name,
        ).to_multiset().count(k)
    }
}

/// A batch of per-trial draw sequences for a series of `n` games: one
/// sequence per trial, each of length `n`, every draw in `[0, SCALE)`.
pub open spec fn spec_draws_valid(draws: Seq<Seq<u64>>, n: int) -> bool {
    forall|t: int|
        0 <= t < draws.len() ==> (#[trigger] draws[t].len() == n && forall|j: int|
            0 <= j < draws[t].len() ==> draws[t][j] < SCALE)
}

/// Runs one trial per supplied draw sequence and merges the per-trial
/// win-streak histograms by pointwise summation.  The result is a
/// function of the inputs alone; `run_trials` layers fresh randomness
/// on top of it.
pub fn run_trials_with_draws(
    games: &Vec<Game>,
    p_white_raws: &Vec<u64>,
    player_name: &str,
    draws: &Vec<Vec<u64>>,
) -> (h: Histogram)
    requires
        p_white_raws@.len() == games@.len(),
        forall|i: int| 0 <= i < games@.len() ==> p_white_raws@[i] <= SCALE,
        forall|i: int|
            0 <= i < games@.len() ==> spec_participates(#[trigger] games@[i]@, player_name@),
        spec_draws_valid(draws@.map_values(|d: Vec<u64>| d@), games@.len() as int),
        games@.len() * draws@.len() <= u64::MAX,
    ensures
        h.wf(),
        forall|k: int|
            #[trigger] h.spec_count(k) == spec_trials_count(
                games_view(games@),
                p_white_raws@,
                player_name@,
                draws@.map_values(|d: Vec<u64>| d@),
                k,
            ),
{
    let ghost gv = games_view(games@);
    let ghost nm = player_name@;
    let ghost dv = draws@.map_values(|d: Vec<u64>| d@);
    let n = games.len();
    let mut acc = Histogram::new();
    let mut t: usize = 0;
    while t < draws.len()
        invariant
            0 <= t <= draws@.len(),
            gv == games_view(games@),
            nm == player_name@,
            dv == draws@.map_values(|d: Vec<u64>| d@),
            n == games@.len(),
            p_white_raws@.len() == games@.len(),
            forall|i: int| 0 <= i < games@.len() ==> p_white_raws@[i] <= SCALE,
            forall|i: int|
                0 <= i < games@.len() ==> spec_participates(#[trigger] games@[i]@, nm),
            spec_draws_valid(dv, games@.len() as int),
            dv.len() == draws@.len(),
            games@.len() * draws@.len() <= u64::MAX,
            acc.wf(),
            forall|k: int|
                #[trigger] acc.spec_count(k) == spec_trials_count(gv, p_white_raws@, nm, dv.take(
                    t as int,
                ), k),
            forall|k: int| 0 <= #[trigger] acc.spec_count(k) <= t * games@.len(),
        decreases draws@.len() - t,
    {
        proof {
            assert(dv[t as int] == draws@[t as int]@);
            assert(dv[t as int].len() == games@.len());
        }
        let sim = simulate_games_with_draws(games, p_white_raws, &draws[t]);
        proof {
            assert forall|i: int| 0 <= i < sim@.len() implies spec_participates(
                #[trigger] sim@[i]@,
                nm,
            ) by {
                assert(sim@[i]@ == games_view(sim@)[i]);
                assert(games_view(sim@)[i] == spec_simulated_game(
                    gv[i],
                    p_white_raws@[i],
                    draws@[t as int]@[i],
                ));
                assert(gv[i] == games@[i]@);
            }
        }
        let ht = generate_win_streak_histogram(player_name, &sim);
        proof {
            assert((t + 1) * games@.len() <= draws@.len() * games@.len()) by (nonlinear_arith)
                requires
                    0 <= t + 1 <= draws@.len(),
                    games@.len() >= 0,
            ;
            assert(draws@.len() * games@.len() <= u64::MAX) by (nonlinear_arith)
                requires
                    games@.len() * draws@.len() <= u64::MAX,
            ;
            assert((t + 1) * games@.len() == t * games@.len() + games@.len()) by (nonlinear_arith);
        }
        let merged = acc.merge(&ht);
        acc = merged;
        t += 1;
        proof {
            assert(dv.take(t as int).drop_last() =~= dv.take(t - 1));
            assert(dv.take(t as int).last() == dv[t - 1]);
            assert(dv[t - 1] == draws@[t - 1]@);
            assert(games_view(sim@) == spec_simulate(gv, p_white_raws@, dv[t - 1]));
        }
    }
    proof {
        assert(dv.take(draws@.len() as int) =~= dv);
    }
    acc
}

/// Runs `trial_count` independent trials — each simulating the whole
/// series with its own fresh draws and extracting the named player's
/// win-streak histogram — and merges the per-trial histograms by
/// pointwise summation.  Zero trials yield the empty histogram, the
/// identity of the merge.
pub fn run_trials(
    games: &Vec<Game>,
    p_white_raws: &Vec<u64>,
    player_name: &str,
    trial_count: usize,
) -> (h: Histogram)
    requires
        p_white_raws@.len() == games@.len(),
        forall|i: int| 0 <= i < games@.len() ==> p_white_raws@[i] <= SCALE,
        forall|i: int|
            0 <= i < games@.len() ==> spec_participates(#[trigger] games@[i]@, player_name@),
        games@.len() * trial_count <= u64::MAX,
    ensures
        h.wf(),
        trial_count == 0 ==> forall|k: int| h.spec_count(k) == 0,
        exists|draws: Seq<Seq<u64>>|
            #![auto]
            draws.len() == trial_count && spec_draws_valid(draws, games@.len() as int) && (forall|
                k: int,
            |
                h.spec_count(k) == spec_trials_count(
                    games_view(games@),
                    p_white_raws@,
                    player_name@,
                    draws,
                    k,
                )),
{
    let n = games.len();
    let mut all_draws: Vec<Vec<u64>> = Vec::new();
    let mut t: usize = 0;
    while t < trial_count
        invariant
            0 <= t <= trial_count,
            all_draws@.len() == t,
            n == games@.len(),
            spec_draws_valid(all_draws@.map_values(|d: Vec<u64>| d@), games@.len() as int),
        decreases trial_count - t,
    {
        let ghost before = all_draws@.map_values(|d: Vec<u64>| d@);
        let ds = fresh_draws(n);
        all_draws.push(ds);
        proof {
            assert(all_draws@.map_values(|d: Vec<u64>| d@) =~= before.push(ds@));
        }
        t += 1;
    }
    let h = run_trials_with_draws(games, p_white_raws, player_name, &all_draws);
    proof {
        let dv = all_draws@.map_values(|d: Vec<u64>| d@);
        assert(dv.len() == trial_count && spec_draws_valid(dv, games@.len() as int) && (forall|
            k: int,
        |
            h.spec_count(k) == spec_trials_count(
                games_view(games@),
                p_white_raws@,
                player_name@,
                dv,
                k,
            )));
    }
    h
}

/// Determinism of the simulator: the simulated series is a function of
/// the games, the model inputs and the draw sequence alone, so two
/// simulations fed the same draws agree on every outcome.
pub proof fn lemma_simulation_deterministic(
    games: Seq<GameView>,
    p_raws: Seq<u64>,
    draws: Seq<u64>,
    r1: Seq<GameView>,
    r2: Seq<GameView>,
)
    requires
        r1 == spec_simulate(games, p_raws, draws),
        r2 == spec_simulate(games, p_raws, draws),
    ensures
        r1 == r2,
{
}

/// Trial independence: splitting the trials into two batches and
/// summing the two aggregates gives the full aggregate, for every
/// streak length — merging per-trial histograms in batches (as a
/// concurrent fold would) changes nothing.
pub proof fn lemma_trials_additive(
    games: Seq<GameView>,
    p_raws: Seq<u64>,
    name: Seq<char>,
    d1: Seq<Seq<u64>>,
    d2: Seq<Seq<u64>>,
    k: int,
)
    ensures
        spec_trials_count(games, p_raws, name, d1 + d2, k) == spec_trials_count(
            games,
            p_raws,
            name,
            d1,
            k,
        ) + spec_trials_count(games, p_raws, name, d2, k),
    decreases d2.len(),
{
    if d2.len() == 0 {
        assert(d1 + d2 =~= d1);
    } else {
        lemma_trials_additive(games, p_raws, name, d1, d2.drop_last(), k);
        assert((d1 + d2).drop_last() =~= d1 + d2.drop_last());
        assert((d1 + d2).last() == d2.last());
    }
}

} // verus!
