[package]
name = "elo_streaks"
version = "0.1.0"
edition = "2021"
publish = false

[dependencies]
rand = "0.8"
rayon = "1"
assert_approx_eq = "1"
