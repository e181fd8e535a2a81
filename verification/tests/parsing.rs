use pipeshell::parse::{join_line, parse_line, stage_text, trim_line};

#[test]
fn parses_two_stage_pipeline() {
    let stages = parse_line("echo hi | cat");
    assert_eq!(stages.len(), 2);
    assert_eq!(stages[0].command, "echo");
    assert_eq!(stages[0].args, vec!["hi".to_string()]);
    assert_eq!(stages[1].command, "cat");
    assert!(stages[1].args.is_empty());
}

#[test]
fn parses_single_command_with_args() {
    let stages = parse_line("ls -l -a /tmp");
    assert_eq!(stages.len(), 1);
    assert_eq!(stages[0].command, "ls");
    assert_eq!(stages[0].args, vec!["-l".to_string(), "-a".to_string(), "/tmp".to_string()]);
}

#[test]
fn empty_line_gives_one_empty_stage() {
    let stages = parse_line("");
    assert_eq!(stages.len(), 1);
    assert_eq!(stages[0].command, "");
    assert!(stages[0].args.is_empty());
}

#[test]
fn blank_line_gives_one_empty_stage() {
    let stages = parse_line("   \t  ");
    assert_eq!(stages.len(), 1);
    assert_eq!(stages[0].command, "");
    assert!(stages[0].args.is_empty());
}

#[test]
fn whitespace_runs_collapse_into_token_splits() {
    let stages = parse_line("  echo   hi\tthere  ");
    assert_eq!(stages.len(), 1);
    assert_eq!(stages[0].command, "echo");
    assert_eq!(stages[0].args, vec!["hi".to_string(), "there".to_string()]);
}

#[test]
fn delimiter_needs_spaces_on_both_sides() {
    let stages = parse_line("a|b");
    assert_eq!(stages.len(), 1);
    assert_eq!(stages[0].command, "a|b");
    let stages = parse_line("a |b");
    assert_eq!(stages.len(), 1);
    assert_eq!(stages[0].command, "a");
    assert_eq!(stages[0].args, vec!["|b".to_string()]);
}

#[test]
fn empty_stage_between_delimiters() {
    let stages = parse_line("a |  | b");
    assert_eq!(stages.len(), 3);
    assert_eq!(stages[0].command, "a");
    assert_eq!(stages[1].command, "");
    assert_eq!(stages[2].command, "b");
}

#[test]
fn trim_removes_edges_only() {
    assert_eq!(trim_line("  a b  "), "a b");
    assert_eq!(trim_line("\t\n x \r "), "x");
    assert_eq!(trim_line(""), "");
    assert_eq!(trim_line("ab"), "ab");
}

#[test]
fn stage_text_joins_with_single_spaces() {
    let stages = parse_line("echo   hi  there");
    assert_eq!(stage_text(&stages[0]), "echo hi there");
}

#[test]
fn round_trip_of_normalised_line() {
    let line = "echo hi | cat";
    assert_eq!(join_line(&parse_line(line)), line);
}

#[test]
fn round_trip_normalises_whitespace() {
    assert_eq!(join_line(&parse_line("  echo   hi |  cat  ")), "echo hi | cat");
    assert_eq!(join_line(&parse_line("a\t b")), "a b");
    assert_eq!(join_line(&parse_line("")), "");
}
