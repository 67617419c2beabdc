//! The win-streak extractor: from a sequence of games and a player
//! name, the frequency histogram of that player's maximal runs of
//! consecutive wins.
//!
//! The model is `spec_streaks`: the lengths of the player's maximal
//! win runs, in order of completion.  The extractor's histogram counts
//! each length exactly as often as it occurs in that sequence.

use vstd::prelude::*;
use crate::chess::{Game, GameView, games_view};
use crate::histogram::Histogram;

verus! {

/// Whether the named player is one of the two participants of a game.
pub open spec fn spec_participates(g: GameView, name: Seq<char>) -> bool {
    g.white.name == name || g.black.name == name
}

/// Whether the named player won a game: as white with a white win, or
/// as black with a black win.  A draw is never a win.
pub open spec fn spec_win(g: GameView, name: Seq<char>) -> bool {
    (g.white.name == name && g.outcome is WhiteWin) || (g.black.name == name
        && g.outcome is BlackWin)
}

/// The lengths of the named player's maximal win runs in `games[i..]`,
/// in order of completion, given `cur` consecutive wins immediately
/// before index `i`.  A run still open at the end of the sequence is
/// flushed as well.
pub open spec fn spec_streaks_from(
    games: Seq<GameView>,
    name: Seq<char>,
    i: int,
    cur: int,
) -> Seq<int>
    decreases games.len() - i,
{
    if i < 0 || i >= games.len() {
        if cur > 0 {
            seq![cur]
        } else {
            Seq::empty()
        }
    } else if spec_win(games[i], name) {
        spec_streaks_from(games, name, i + 1, cur + 1)
    } else if cur > 0 {
        seq![cur] + spec_streaks_from(games, name, i + 1, 0)
    } else {
        spec_streaks_from(games, name, i + 1, 0)
    }
}

/// All maximal win-streak lengths of the named player, in order.
pub open spec fn spec_streaks(games: Seq<GameView>, name: Seq<char>) -> Seq<int> {
    spec_streaks_from(games, name, 0, 0)
}

/// A scan that meets no further win and carries no open run flushes
/// nothing.
proof fn lemma_streaks_from_no_wins(games: Seq<GameView>, name: Seq<char>, i: int)
    requires
        0 <= i <= games.len(),
        forall|j: int| 0 <= j < games.len() ==> !spec_win(#[trigger] games[j], name),
    ensures
        spec_streaks_from(games, name, i, 0) == Seq::<int>::empty(),
    decreases games.len() - i,
{
    if i < games.len() {
        lemma_streaks_from_no_wins(games, name, i + 1);
    }
}

/// A series in which the named player never wins — and in particular an
/// empty series — yields no streaks at all.
pub proof fn lemma_streaks_no_wins(games: Seq<GameView>, name: Seq<char>)
    requires
        forall|j: int| 0 <= j < games.len() ==> !spec_win(#[trigger] games[j], name),
    ensures
        spec_streaks(games, name) == Seq::<int>::empty(),
{
    lemma_streaks_from_no_wins(games, name, 0);
}

/// A scan of nothing but wins flushes one streak: the open run plus
/// everything still ahead.
proof fn lemma_streaks_from_all_wins(games: Seq<GameView>, name: Seq<char>, i: int, cur: int)
    requires
        0 <= i <= games.len(),
        cur >= 0,
        cur + games.len() - i > 0,
        forall|j: int| 0 <= j < games.len() ==> spec_win(#[trigger] games[j], name),
    ensures
        spec_streaks_from(games, name, i, cur) == seq![cur + games.len() - i],
    decreases games.len() - i,
{
    if i < games.len() {
        lemma_streaks_from_all_wins(games, name, i + 1, cur + 1);
    }
}

/// A non-empty series won throughout by the named player yields exactly
/// one streak, whose length is the whole series.
pub proof fn lemma_streaks_all_wins(games: Seq<GameView>, name: Seq<char>)
    requires
        games.len() > 0,
        forall|j: int| 0 <= j < games.len() ==> spec_win(#[trigger] games[j], name),
    ensures
        spec_streaks(games, name) == seq![games.len() as int],
{
    lemma_streaks_from_all_wins(games, name, 0, 0);
}

/// A histogram standing in the extractor's relation to a series the
/// named player never won — or to an empty series — is empty at every
/// length.
pub proof fn lemma_histogram_no_wins(games: Seq<GameView>, name: Seq<char>, h: Histogram)
    requires
        forall|j: int| 0 <= j < games.len() ==> !spec_win(#[trigger] games[j], name),
        forall|k: int|
            #[trigger] h.spec_count(k) == spec_streaks(games, name).to_multiset().count(k),
    ensures
        forall|k: int| h.spec_count(k) == 0,
{
    broadcast use vstd::seq_lib::group_to_multiset_ensures;

    lemma_streaks_no_wins(games, name);
    assert forall|k: int| h.spec_count(k) == 0 by {
        if Seq::<int>::empty().to_multiset().count(k) > 0 {
            assert(Seq::<int>::empty().contains(k));
        }
    }
}

/// A histogram standing in the extractor's relation to a non-empty
/// series won throughout by the named player counts exactly one streak,
/// of the series' full length.
pub proof fn lemma_histogram_all_wins(games: Seq<GameView>, name: Seq<char>, h: Histogram)
    requires
        games.len() > 0,
        forall|j: int| 0 <= j < games.len() ==> spec_win(#[trigger] games[j], name),
        forall|k: int|
            #[trigger] h.spec_count(k) == spec_streaks(games, name).to_multiset().count(k),
    ensures
        h.spec_count(games.len() as int) == 1,
        forall|k: int| k != games.len() ==> h.spec_count(k) == 0,
{
    broadcast use vstd::seq_lib::group_to_multiset_ensures;
    broadcast use vstd::multiset::lemma_insert_increases_count_by_1;
    broadcast use vstd::multiset::lemma_insert_other_elements_unchanged;

    lemma_streaks_all_wins(games, name);
    let n = games.len() as int;
    assert(seq![n] =~= Seq::<int>::empty().push(n));
    vstd::seq_lib::to_multiset_build(Seq::<int>::empty(), n);
    assert(seq![n].to_multiset() =~= Seq::<int>::empty().to_multiset().insert(n));
    assert forall|k: int| k != games.len() implies h.spec_count(k) == 0 by {
        if Seq::<int>::empty().to_multiset().count(k) > 0 {
            assert(Seq::<int>::empty().contains(k));
        }
    }
}

/// Scans the games in order and returns the histogram of the named
/// player's win-streak lengths: a run of consecutive wins is recorded
/// when a loss or draw breaks it, and once more at the end of the
/// sequence if the games end mid-run.
///
/// Every supplied game must involve the named player: a game with
/// neither participant matching signals that the caller scoped the
/// wrong games, and is refused by precondition rather than skipped.
pub fn generate_win_streak_histogram(player_name: &str, games: &Vec<Game>) -> (h: Histogram)
    requires
        forall|i: int|
            0 <= i < games@.len() ==> spec_participates(#[trigger] games@[i]@, player_name@),
    ensures
        h.wf(),
        forall|k: int|
            #[trigger] h.spec_count(k) == spec_streaks(games_view(games@), player_name@)
                .to_multiset()
                .count(k),
        forall|k: int| 0 <= #[trigger] h.spec_count(k) <= games@.len(),
{
    broadcast use vstd::seq_lib::group_to_multiset_ensures;
    broadcast use vstd::multiset::lemma_insert_increases_count_by_1;
    broadcast use vstd::multiset::lemma_insert_other_elements_unchanged;

    let ghost gv = games_view(games@);
    let ghost nm = player_name@;
    let pname = String::from_str(player_name);
    let mut h = Histogram::new();
    let mut cur: usize = 0;
    let ghost mut flushed: Seq<int> = Seq::empty();
    let mut idx: usize = 0;
    while idx < games.len()
        invariant
            0 <= idx <= games@.len(),
            gv == games_view(games@),
            nm == player_name@,
            pname@ == nm,
            h.wf(),
            cur <= idx,
            spec_streaks(gv, nm) == flushed + spec_streaks_from(gv, nm, idx as int, cur as int),
            forall|k: int| #[trigger] h.spec_count(k) == flushed.to_multiset().count(k),
            forall|k: int| k >= 1 ==> #[trigger] h.spec_count(k) * k + cur <= idx,
            forall|j: int| 0 <= j < flushed.len() ==> #[trigger] flushed[j] >= 1,
        decreases games@.len() - idx,
    {
        let ghost old_h = h;
        let ghost old_cur = cur as int;
        let ghost old_flushed = flushed;
        let g = &games[idx];
        proof {
            assert(gv[idx as int] == games@[idx as int]@);
        }
        let is_white = g.white.name == pname;
        let is_black = g.black.name == pname;
        let won = (is_white && g.outcome == crate::chess::Outcome::WhiteWin) || (is_black
            && g.outcome == crate::chess::Outcome::BlackWin);
        proof {
            assert(won == spec_win(gv[idx as int], nm));
        }
        if won {
            cur += 1;
        } else if cur > 0 {
            proof {
                assert(h.spec_count(cur as int) <= h.spec_count(cur as int) * (cur as int))
                    by (nonlinear_arith)
                    requires
                        cur >= 1,
                        h.spec_count(cur as int) >= 0,
                ;
            }
            h.record(cur);
            proof {
                flushed = flushed.push(cur as int);
                assert((old_h.spec_count(cur as int) + 1) * (cur as int) == old_h.spec_count(
                    cur as int,
                ) * (cur as int) + cur) by (nonlinear_arith);
                vstd::seq_lib::to_multiset_build(old_flushed, cur as int);
                assert(old_flushed.push(cur as int).to_multiset() =~= old_flushed.to_multiset()
                    .insert(cur as int));
            }
            cur = 0;
        }
        idx += 1;
        proof {
            if spec_win(gv[idx - 1], nm) {
                assert(spec_streaks_from(gv, nm, idx - 1, old_cur) == spec_streaks_from(
                    gv,
                    nm,
                    idx as int,
                    old_cur + 1,
                ));
            } else if old_cur > 0 {
                assert(spec_streaks_from(gv, nm, idx - 1, old_cur) == seq![old_cur]
                    + spec_streaks_from(gv, nm, idx as int, 0));
                assert(flushed == old_flushed.push(old_cur));
                assert(flushed + spec_streaks_from(gv, nm, idx as int, 0) == old_flushed + (seq![
                    old_cur,
                ] + spec_streaks_from(gv, nm, idx as int, 0)));
            } else {
                assert(spec_streaks_from(gv, nm, idx - 1, 0) == spec_streaks_from(
                    gv,
                    nm,
                    idx as int,
                    0,
                ));
            }
        }
    }
    let ghost pre_h = h;
    let ghost pre_flushed = flushed;
    if cur > 0 {
        proof {
            assert(h.spec_count(cur as int) <= h.spec_count(cur as int) * (cur as int))
                by (nonlinear_arith)
                requires
                    cur >= 1,
                    h.spec_count(cur as int) >= 0,
            ;
        }
        h.record(cur);
        proof {
            flushed = flushed.push(cur as int);
            assert((pre_h.spec_count(cur as int) + 1) * (cur as int) == pre_h.spec_count(
                cur as int,
            ) * (cur as int) + cur) by (nonlinear_arith);
            vstd::seq_lib::to_multiset_build(pre_flushed, cur as int);
            assert(pre_flushed.push(cur as int).to_multiset() =~= pre_flushed.to_multiset().insert(
                cur as int,
            ));
            assert(spec_streaks_from(gv, nm, games@.len() as int, cur as int) == seq![cur as int]);
            assert(spec_streaks(gv, nm) == pre_flushed + seq![cur as int]);
            assert(pre_flushed + seq![cur as int] == flushed);
        }
    } else {
        proof {
            assert(spec_streaks_from(gv, nm, games@.len() as int, 0) == Seq::<int>::empty());
            assert(flushed + Seq::<int>::empty() == flushed);
        }
    }
    proof {
        assert(forall|k: int|
            k >= 1 ==> #[trigger] h.spec_count(k) * k <= games@.len());
        assert forall|k: int| 0 <= #[trigger] h.spec_count(k) <= games@.len() by {
            if k >= 1 {
                assert(h.spec_count(k) <= h.spec_count(k) * k) by (nonlinear_arith)
                    requires
                        k >= 1,
                        h.spec_count(k) >= 0,
                ;
            } else {
                if flushed.to_multiset().count(k) > 0 {
                    assert(flushed.contains(k));
                    assert(false);
                }
            }
        }
    }
    h
}

} // verus!
