use elo_streaks::{parse_games, parse_u32, Outcome};

fn export_two_games() -> String {
    let mut s = String::new();
    s.push_str("[Event \"Live Chess\"]\n");
    s.push_str("[Site \"Chess.com\"]\n");
    s.push_str("[White \"Hikaru\"]\n");
    s.push_str("[Black \"Magnus\"]\n");
    s.push_str("[Result \"1-0\"]\n");
    s.push_str("[WhiteElo \"3200\"]\n");
    s.push_str("[BlackElo \"3100\"]\n");
    s.push_str("[TimeControl \"180\"]\n");
    s.push_str("1. e4 e5 2. Nf3 Nc6 1-0\n");
    s.push_str("\n");
    s.push_str("[Event \"Live Chess\"]\n");
    s.push_str("[White \"Magnus\"]\n");
    s.push_str("[Black \"Hikaru\"]\n");
    s.push_str("[Result \"1/2-1/2\"]\n");
    s.push_str("[WhiteElo \"3105\"]\n");
    s.push_str("[BlackElo \"3198\"]\n");
    s.push_str("1. d4 d5 1/2-1/2\n");
    s
}

#[test]
fn parses_complete_records() {
    let games = parse_games(&export_two_games());
    assert_eq!(games.len(), 2);
    assert_eq!(games[0].white.name, "Hikaru");
    assert_eq!(games[0].black.name, "Magnus");
    assert_eq!(games[0].white.rating.0, 3200);
    assert_eq!(games[0].black.rating.0, 3100);
    assert_eq!(games[0].outcome, Outcome::WhiteWin);
    assert_eq!(games[1].white.name, "Magnus");
    assert_eq!(games[1].outcome, Outcome::Draw);
    assert_eq!(games[1].black.rating.0, 3198);
}

#[test]
fn black_win_result_is_recognised() {
    let s = "[White \"a\"]\n[Black \"b\"]\n[Result \"0-1\"]\n[WhiteElo \"1\"]\n[BlackElo \"2\"]\n";
    let games = parse_games(s);
    assert_eq!(games.len(), 1);
    assert_eq!(games[0].outcome, Outcome::BlackWin);
}

#[test]
fn empty_input_gives_no_games() {
    assert_eq!(parse_games("").len(), 0);
    assert_eq!(parse_games("just some text\nwith no tags\n").len(), 0);
}

#[test]
fn record_with_bad_rating_is_skipped() {
    let bad = "[White \"a\"]\n[Black \"b\"]\n[Result \"1-0\"]\n[WhiteElo \"abc\"]\n[BlackElo \"2\"]\n";
    assert_eq!(parse_games(bad).len(), 0);
    let overflow =
        "[White \"a\"]\n[Black \"b\"]\n[Result \"1-0\"]\n[WhiteElo \"99999999999\"]\n[BlackElo \"2\"]\n";
    assert_eq!(parse_games(overflow).len(), 0);
}

#[test]
fn record_with_unknown_result_is_skipped() {
    let s = "[White \"a\"]\n[Black \"b\"]\n[Result \"*\"]\n[WhiteElo \"1\"]\n[BlackElo \"2\"]\n";
    assert_eq!(parse_games(s).len(), 0);
}

#[test]
fn incomplete_record_is_skipped() {
    let s = "[White \"a\"]\n[Result \"1-0\"]\n[WhiteElo \"1\"]\n[BlackElo \"2\"]\n";
    assert_eq!(parse_games(s).len(), 0);
}

#[test]
fn skipped_record_does_not_poison_the_next() {
    let mut s = String::new();
    s.push_str("[Event \"e\"]\n");
    s.push_str("[White \"a\"]\n[Black \"b\"]\n[Result \"*\"]\n[WhiteElo \"1\"]\n[BlackElo \"2\"]\n");
    s.push_str("[Event \"e\"]\n");
    s.push_str("[White \"c\"]\n[Black \"d\"]\n[Result \"1-0\"]\n[WhiteElo \"3\"]\n[BlackElo \"4\"]\n");
    let games = parse_games(&s);
    assert_eq!(games.len(), 1);
    assert_eq!(games[0].white.name, "c");
    assert_eq!(games[0].white.rating.0, 3);
}

#[test]
fn event_tag_opens_a_fresh_record() {
    // An incomplete record's leftovers must not complete a later one:
    // the second record here never states its ratings, so nothing of
    // the first record's ratings may stand in for them.
    let mut s = String::new();
    s.push_str("[Event \"e\"]\n");
    s.push_str("[White \"a\"]\n[Black \"b\"]\n[Result \"*\"]\n[WhiteElo \"1\"]\n[BlackElo \"2\"]\n");
    s.push_str("[Event \"e\"]\n");
    s.push_str("[White \"c\"]\n[Black \"d\"]\n[Result \"1-0\"]\n");
    assert_eq!(parse_games(&s).len(), 0);
}

#[test]
fn last_line_may_lack_a_newline() {
    let s = "[White \"a\"]\n[Black \"b\"]\n[Result \"1-0\"]\n[WhiteElo \"1\"]\n[BlackElo \"2\"]";
    let games = parse_games(s);
    assert_eq!(games.len(), 1);
    assert_eq!(games[0].black.rating.0, 2);
}

#[test]
fn parse_u32_accepts_exactly_fitting_digit_strings() {
    assert_eq!(parse_u32("0"), Some(0));
    assert_eq!(parse_u32("2785"), Some(2785));
    assert_eq!(parse_u32("4294967295"), Some(u32::MAX));
    assert_eq!(parse_u32("4294967296"), None);
    assert_eq!(parse_u32(""), None);
    assert_eq!(parse_u32("12a"), None);
    assert_eq!(parse_u32("-3"), None);
}
