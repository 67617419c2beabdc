//! Estimation of the statistical significance of chess win streaks.
//!
//! The crate models game outcomes from Elo ratings in fixed-point
//! probabilities, samples simulated game series from that model, and
//! aggregates win-streak histograms over many independent trials.

mod chess;
mod elo;
mod histogram;
mod stochastic;
mod streaks;

pub use chess::Game;
pub use chess::GameView;
pub use chess::Outcome;
pub use chess::Player;
pub use chess::PlayerView;
pub use chess::parse_games;
pub use chess::parse_u32;
pub use elo::ExpectedOutcome;
pub use elo::MAX_DRAW_PPB;
pub use elo::Rating;
pub use elo::SCALE;
pub use elo::calculate_expected_outcome;
pub use elo::lemma_model_monotone;
pub use elo::lemma_symmetric_ratings;
pub use elo::probability_of_draw;
pub use histogram::Histogram;
pub use histogram::lemma_merge_associates;
pub use histogram::lemma_merge_commutes;
pub use stochastic::lemma_simulation_deterministic;
pub use stochastic::lemma_trials_additive;
pub use stochastic::run_trials;
pub use stochastic::run_trials_with_draws;
pub use stochastic::sample_outcome;
pub use stochastic::simulate_games;
pub use stochastic::simulate_games_with_draws;
pub use streaks::generate_win_streak_histogram;
pub use streaks::lemma_histogram_all_wins;
pub use streaks::lemma_histogram_no_wins;
pub use streaks::lemma_streaks_all_wins;
pub use streaks::lemma_streaks_no_wins;
