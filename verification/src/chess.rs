//! Chess game records: players, outcomes, and games, together with the
//! parser for the tag-pair export format they arrive in.
//!
//! A game's participants are identified by name; ratings ride along as
//! data.  The abstract value of a player or a game (its view) replaces
//! each name by its character sequence, so contracts can speak of games
//! without reference to `String`.

use vstd::prelude::*;
use crate::elo::Rating;

verus! {

/// The possible outcomes of a chess game: exhaustive and mutually
/// exclusive.
#[derive(Clone, Copy, Debug, PartialEq, Eq, Structural)]
pub enum Outcome {
    WhiteWin,
    BlackWin,
    Draw,
}

/// A chess player: a name, which is the player's identity, and the Elo
/// rating they held for one particular game.
#[derive(Debug)]
pub struct Player {
    pub name: String,
    pub rating: Rating,
}

/// One chess game: the two participants and the outcome, which is
/// either historically observed or freshly simulated — the shape is the
/// same in both cases.
#[derive(Debug)]
pub struct Game {
    pub white: Player,
    pub black: Player,
    pub outcome: Outcome,
}

/// The abstract value of a `Player`.
#[verifier::ext_equal]
pub struct PlayerView {
    pub name: Seq<char>,
    pub rating: Rating,
}

/// The abstract value of a `Game`.
#[verifier::ext_equal]
pub struct GameView {
    pub white: PlayerView,
    pub black: PlayerView,
    pub outcome: Outcome,
}

impl View for Player {
    type V = PlayerView;

    open spec fn view(&self) -> PlayerView {
        PlayerView { name: self.name@, rating: self.rating }
    }
}

impl View for Game {
    type V = GameView;

    open spec fn view(&self) -> GameView {
        GameView { white: self.white@, black: self.black@, outcome: self.outcome }
    }
}

impl Clone for Player {
    /// A clone carries the same name and rating.
    fn clone(&self) -> (r: Self)
        ensures
            r@ == self@,
    {
        Player { name: self.name.clone(), rating: self.rating }
    }
}

impl Clone for Game {
    /// A clone is the same game: same participants, same outcome.
    fn clone(&self) -> (r: Self)
        ensures
            r@ == self@,
    {
        Game { white: self.white.clone(), black: self.black.clone(), outcome: self.outcome }
    }
}

/// The abstract values of a sequence of games.
pub open spec fn games_view(games: Seq<Game>) -> Seq<GameView> {
    games.map_values(|g: Game| g@)
}

// ---------------------------------------------------------------------
// The game-export parser.
//
// A game record arrives as a block of tag-pair lines of the shape
// `[Key "Value"]`.  The parser reads the input line by line, collects
// the five tags a game needs — White, Black, WhiteElo, BlackElo,
// Result — and emits a game as soon as all five are at hand, starting
// afresh for the next record.  Lines of any other shape (movetext,
// blank lines, unknown tags) are passed over, and a record with an
// unusable rating or result never completes, so malformed records are
// skipped rather than reported.
// ---------------------------------------------------------------------
/// Whether a character is a decimal digit.
pub open spec fn spec_is_digit(c: char) -> bool {
    '0' <= c && c <= '9'
}

/// The numeric value of a digit sequence, most significant first.
pub open spec fn spec_digits_val(s: Seq<char>) -> int
    decreases s.len(),
{
    if s.len() == 0 {
        0
    } else {
        spec_digits_val(s.drop_last()) * 10 + (s.last() as int - '0' as int)
    }
}

/// Whether every character of `s` is a decimal digit.
pub open spec fn spec_all_digits(s: Seq<char>) -> bool {
    forall|i: int| 0 <= i < s.len() ==> spec_is_digit(#[trigger] s[i])
}

/// A rating parses exactly when it is a non-empty, all-digit sequence
/// whose value fits the rating type.
pub open spec fn spec_parse_u32(s: Seq<char>) -> Option<u32> {
    if s.len() > 0 && spec_all_digits(s) && spec_digits_val(s) <= u32::MAX {
        Some(spec_digits_val(s) as u32)
    } else {
        None
    }
}

/// The value of an all-digit sequence only grows with its prefixes.
proof fn lemma_digits_prefix_le(s: Seq<char>, i: int)
    requires
        spec_all_digits(s),
        0 <= i <= s.len(),
    ensures
        0 <= spec_digits_val(s.take(i)) <= spec_digits_val(s),
    decreases s.len(),
{
    if s.len() == 0 {
        assert(s.take(i) =~= s);
    } else if i == s.len() {
        assert(s.take(i) =~= s);
        lemma_digits_prefix_le(s.drop_last(), s.len() - 1);
        assert(spec_digits_val(s.drop_last()) * 10 >= spec_digits_val(s.drop_last()));
        assert(s.last() as int - '0' as int >= 0);
    } else {
        assert(spec_all_digits(s.drop_last()));
        assert(s.take(i) =~= s.drop_last().take(i));
        lemma_digits_prefix_le(s.drop_last(), i);
        assert(spec_digits_val(s.drop_last()) * 10 >= spec_digits_val(s.drop_last()));
        assert(s.last() as int - '0' as int >= 0);
    }
}

/// Parses a non-negative decimal integer: succeeds exactly on a
/// non-empty all-digit string whose value fits.
pub fn parse_u32(s: &str) -> (r: Option<u32>)
    ensures
        r == spec_parse_u32(s@),
{
    let n = s.unicode_len();
    if n == 0 {
        return None;
    }
    let mut acc: u32 = 0;
    let mut i: usize = 0;
    while i < n
        invariant
            0 < n == s@.len(),
            0 <= i <= n,
            spec_all_digits(s@.take(i as int)),
            acc == spec_digits_val(s@.take(i as int)),
        decreases n - i,
    {
        let c = s.get_char(i);
        if c < '0' || c > '9' {
            return None;
        }
        let d: u32 = (c as u32) - ('0' as u32);
        let wide: u64 = (acc as u64) * 10 + (d as u64);
        if wide > u32::MAX as u64 {
            proof {
                assert(s@.take(i + 1).drop_last() =~= s@.take(i as int));
                assert(s@.take(i + 1).last() == s@[i as int]);
                if spec_all_digits(s@) {
                    lemma_digits_prefix_le(s@, i + 1);
                }
            }
            return None;
        }
        acc = wide as u32;
        proof {
            assert(s@.take(i + 1).drop_last() =~= s@.take(i as int));
            assert(s@.take(i + 1).last() == s@[i as int]);
        }
        i += 1;
    }
    proof {
        assert(s@.take(n as int) =~= s@);
    }
    Some(acc)
}

/// The index of the first occurrence of `c` in `s` at or after `from`,
/// or the length of `s` if there is none.
pub open spec fn spec_find(s: Seq<char>, from: int, c: char) -> int
    decreases s.len() - from,
{
    if from < 0 || from >= s.len() {
        s.len() as int
    } else if s[from] == c {
        from
    } else {
        spec_find(s, from + 1, c)
    }
}

/// `spec_find` lands between `from` and the length of `s`.
proof fn lemma_find_range(s: Seq<char>, from: int, c: char)
    requires
        0 <= from <= s.len(),
    ensures
        from <= spec_find(s, from, c) <= s.len(),
    decreases s.len() - from,
{
    if from < s.len() && s[from] != c {
        lemma_find_range(s, from + 1, c);
    }
}

/// Finds the first occurrence of `c` in `s` at or after `from`, or the
/// character length of `s` if there is none.
fn find_char(s: &str, from: usize, c: char) -> (r: usize)
    requires
        from <= s@.len(),
    ensures
        r == spec_find(s@, from as int, c),
        from <= r <= s@.len(),
{
    proof {
        lemma_find_range(s@, from as int, c);
    }
    let n = s.unicode_len();
    let mut i = from;
    while i < n
        invariant
            from <= i <= n,
            n == s@.len(),
            spec_find(s@, from as int, c) == spec_find(s@, i as int, c),
        decreases n - i,
    {
        if s.get_char(i) == c {
            return i;
        }
        i += 1;
    }
    i
}

/// A parsed tag pair: the key and the quoted value of one header line.
#[verifier::ext_equal]
pub struct TagView {
    pub key: Seq<char>,
    pub value: Seq<char>,
}

/// The tag pair of a header line of the shape `[Key "Value"]`: the key
/// runs from after the bracket to the first space, the value sits
/// between the first pair of double quotes, and the closing quote must
/// be followed directly by the closing bracket.  Any other line carries
/// no tag.
pub open spec fn spec_tag(line: Seq<char>) -> Option<TagView> {
    if line.len() == 0 || line[0] != '[' {
        None
    } else {
        let sp = spec_find(line, 1, ' ');
        let q1 = spec_find(line, sp, '"');
        let q2 = spec_find(line, q1 + 1, '"');
        if sp >= line.len() || q1 >= line.len() || q2 + 1 >= line.len() || line[q2 + 1] != ']' {
            None
        } else {
            Some(TagView { key: line.subrange(1, sp), value: line.subrange(q1 + 1, q2) })
        }
    }
}

/// Parses one line as a tag pair, if it has the tag shape.
fn parse_tag_line(line: &str) -> (r: Option<(String, String)>)
    ensures
        r is Some <==> spec_tag(line@) is Some,
        r is Some ==> {
            let t = spec_tag(line@).unwrap();
            r.unwrap().0@ == t.key && r.unwrap().1@ == t.value
        },
{
    let n = line.unicode_len();
    if n == 0 {
        return None;
    }
    if line.get_char(0) != '[' {
        return None;
    }
    let sp = find_char(line, 1, ' ');
    if sp >= n {
        return None;
    }
    let q1 = find_char(line, sp, '"');
    if q1 >= n {
        return None;
    }
    let q2 = find_char(line, q1 + 1, '"');
    if q2 >= n || q2 + 1 >= n {
        return None;
    }
    if line.get_char(q2 + 1) != ']' {
        return None;
    }
    let key = String::from_str(line.substring_char(1, sp));
    let value = String::from_str(line.substring_char(q1 + 1, q2));
    Some((key, value))
}

/// The result tag's value decides the outcome; any other score text
/// leaves the record without a usable result.
pub open spec fn spec_outcome_of(v: Seq<char>) -> Option<Outcome> {
    if v == "1-0"@ {
        Some(Outcome::WhiteWin)
    } else if v == "0-1"@ {
        Some(Outcome::BlackWin)
    } else if v == "1/2-1/2"@ {
        Some(Outcome::Draw)
    } else {
        None
    }
}

/// Decides the outcome named by a result tag's value.
fn outcome_of(v: &String) -> (r: Option<Outcome>)
    ensures
        r == spec_outcome_of(v@),
{
    if v.eq(&String::from_str("1-0")) {
        Some(Outcome::WhiteWin)
    } else if v.eq(&String::from_str("0-1")) {
        Some(Outcome::BlackWin)
    } else if v.eq(&String::from_str("1/2-1/2")) {
        Some(Outcome::Draw)
    } else {
        None
    }
}

/// What the parser has collected of the current record.
#[verifier::ext_equal]
pub struct RecordView {
    pub white_name: Option<Seq<char>>,
    pub black_name: Option<Seq<char>>,
    pub white_elo: Option<u32>,
    pub black_elo: Option<u32>,
    pub result: Option<Outcome>,
}

/// A record with nothing collected yet.
pub open spec fn spec_empty_record() -> RecordView {
    RecordView {
        white_name: None,
        black_name: None,
        white_elo: None,
        black_elo: None,
        result: None,
    }
}

/// One line's effect on the record under construction: an Event tag
/// opens a fresh record, discarding anything a preceding incomplete
/// record left behind; a tag of one of the five interesting keys
/// replaces that field with the line's value (unusable values clear
/// it); every other line changes nothing.
pub open spec fn spec_apply_line(st: RecordView, line: Seq<char>) -> RecordView {
    match spec_tag(line) {
        None => st,
        Some(t) => {
            if t.key == "Event"@ {
                spec_empty_record()
            } else if t.key == "White"@ {
                RecordView { white_name: Some(t.value), ..st }
            } else if t.key == "Black"@ {
                RecordView { black_name: Some(t.value), ..st }
            } else if t.key == "WhiteElo"@ {
                RecordView { white_elo: spec_parse_u32(t.value), ..st }
            } else if t.key == "BlackElo"@ {
                RecordView { black_elo: spec_parse_u32(t.value), ..st }
            } else if t.key == "Result"@ {
                RecordView { result: spec_outcome_of(t.value), ..st }
            } else {
                st
            }
        },
    }
}

/// The game a completed record describes, once all five fields are at
/// hand.
pub open spec fn spec_emit(st: RecordView) -> Option<GameView> {
    if st.white_name is Some && st.black_name is Some && st.white_elo is Some && st.black_elo
        is Some && st.result is Some {
        Some(
            GameView {
                white: PlayerView {
                    name: st.white_name.unwrap(),
                    rating: Rating(st.white_elo.unwrap()),
                },
                black: PlayerView {
                    name: st.black_name.unwrap(),
                    rating: Rating(st.black_elo.unwrap()),
                },
                outcome: st.result.unwrap(),
            },
        )
    } else {
        None
    }
}

/// The games found from position `i` on, with `st` collected so far:
/// each newline-terminated line (the last line may end at the end of
/// input) feeds the record, and a completed record emits its game and
/// starts the next one afresh.
pub open spec fn spec_parse_from(s: Seq<char>, i: int, st: RecordView) -> Seq<GameView>
    decreases s.len() - i,
    via spec_parse_from_decreases
{
    if i < 0 || i >= s.len() {
        Seq::empty()
    } else {
        let j = spec_find(s, i, '\n');
        let st1 = spec_apply_line(st, s.subrange(i, j));
        let next = if j + 1 <= s.len() {
            j + 1
        } else {
            s.len() as int
        };
        match spec_emit(st1) {
            Some(g) => seq![g] + spec_parse_from(s, next, spec_empty_record()),
            None => spec_parse_from(s, next, st1),
        }
    }
}

#[via_fn]
proof fn spec_parse_from_decreases(s: Seq<char>, i: int, st: RecordView) {
    if 0 <= i && i < s.len() {
        lemma_find_range(s, i, '\n');
    }
}

/// All games in the export text, in order of appearance.
pub open spec fn spec_parse_games(s: Seq<char>) -> Seq<GameView> {
    spec_parse_from(s, 0, spec_empty_record())
}

/// What the parser has collected of the current record, executably.
struct Record {
    white_name: Option<String>,
    black_name: Option<String>,
    white_elo: Option<u32>,
    black_elo: Option<u32>,
    result: Option<Outcome>,
}

impl View for Record {
    type V = RecordView;

    closed spec fn view(&self) -> RecordView {
        RecordView {
            white_name: match self.white_name {
                Some(s) => Some(s@),
                None => None,
            },
            black_name: match self.black_name {
                Some(s) => Some(s@),
                None => None,
            },
            white_elo: self.white_elo,
            black_elo: self.black_elo,
            result: self.result,
        }
    }
}

impl Record {
    fn empty() -> (r: Record)
        ensures
            r@ == spec_empty_record(),
    {
        Record {
            white_name: None,
            black_name: None,
            white_elo: None,
            black_elo: None,
            result: None,
        }
    }
}

/// Parses a game-export text: reads it line by line, collects the
/// White, Black, WhiteElo, BlackElo and Result tags, and emits a game
/// whenever a record completes.  Records with malformed ratings or an
/// unknown result never complete and are thus skipped.
pub fn parse_games(input: &str) -> (games: Vec<Game>)
    ensures
        games_view(games@) == spec_parse_games(input@),
{
    let n = input.unicode_len();
    let mut games: Vec<Game> = Vec::new();
    let mut st = Record::empty();
    let mut i: usize = 0;
    while i < n
        invariant
            0 <= i <= n,
            n == input@.len(),
            spec_parse_games(input@) == games_view(games@) + spec_parse_from(
                input@,
                i as int,
                st@,
            ),
        decreases n - i,
    {
        let ghost old_games = games@;
        let ghost old_st = st@;
        let j = find_char(input, i, '\n');
        let line = input.substring_char(i, j);
        match parse_tag_line(line) {
            None => {},
            Some((key, value)) => {
                if key == String::from_str("Event") {
                    st = Record::empty();
                } else if key == String::from_str("White") {
                    st.white_name = Some(value);
                } else if key == String::from_str("Black") {
                    st.black_name = Some(value);
                } else if key == String::from_str("WhiteElo") {
                    st.white_elo = parse_u32(value.as_str());
                } else if key == String::from_str("BlackElo") {
                    st.black_elo = parse_u32(value.as_str());
                } else if key == String::from_str("Result") {
                    st.result = outcome_of(&value);
                }
            },
        }
        proof {
            assert(st@ =~= spec_apply_line(old_st, line@));
        }
        if st.white_name.is_some() && st.black_name.is_some() && st.white_elo.is_some()
            && st.black_elo.is_some() && st.result.is_some() {
            let Record { white_name, black_name, white_elo, black_elo, result } = st;
            let g = Game {
                white: Player {
                    name: white_name.unwrap(),
                    rating: Rating(white_elo.unwrap()),
                },
                black: Player {
                    name: black_name.unwrap(),
                    rating: Rating(black_elo.unwrap()),
                },
                outcome: result.unwrap(),
            };
            proof {
                assert(Some(g@) =~= spec_emit(spec_apply_line(old_st, line@)));
            }
            games.push(g);
            st = Record::empty();
            proof {
                assert(games_view(games@) =~= games_view(old_games.push(g)));
                assert(games_view(old_games.push(g)) =~= games_view(old_games) + seq![g@]);
            }
        } else {
            proof {
                assert(spec_emit(spec_apply_line(old_st, line@)) is None);
            }
        }
        i = if j < n {
            j + 1
        } else {
            n
        };
    }
    proof {
        assert(spec_parse_from(input@, n as int, st@) =~= Seq::<GameView>::empty());
        assert(games_view(games@) + Seq::<GameView>::empty() =~= games_view(games@));
    }
    games
}

} // verus!
