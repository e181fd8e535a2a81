use pipeshell::cwd::{resolve_cd_target, WorkDir};
use pipeshell::parse::parse_line;
use pipeshell::pipeline::{Action, Executor, Outcome};
use pipeshell::prompt::Prompt;

fn executor_for(line: &str, home: Option<&str>) -> Executor {
    Executor::new(parse_line(line), home.map(|h| h.to_string()))
}

#[test]
fn two_stage_pipeline_wiring() {
    let mut e = executor_for("echo hi | cat", None);
    match e.next_action() {
        Action::Spawn { command, args, stdin_from_pipe, stdout_to_pipe } => {
            assert_eq!(command, "echo");
            assert_eq!(args, vec!["hi".to_string()]);
            assert!(!stdin_from_pipe);
            assert!(stdout_to_pipe);
        }
        _ => panic!("first stage should spawn"),
    }
    e.apply(Outcome::Spawned { ok: true });
    match e.next_action() {
        Action::Spawn { command, args, stdin_from_pipe, stdout_to_pipe } => {
            assert_eq!(command, "cat");
            assert!(args.is_empty());
            assert!(stdin_from_pipe);
            assert!(!stdout_to_pipe);
        }
        _ => panic!("second stage should spawn"),
    }
    e.apply(Outcome::Spawned { ok: true });
    assert!(matches!(e.next_action(), Action::Wait));
    e.apply(Outcome::Waited);
    assert!(matches!(e.next_action(), Action::Done));
}

#[test]
fn exit_first_spawns_nothing() {
    let mut e = executor_for("exit | echo hi | cat", None);
    assert!(matches!(e.next_action(), Action::Exit));
    e.apply(Outcome::Exited);
    assert!(matches!(e.next_action(), Action::Done));
}

#[test]
fn exit_skips_wait_on_previous_stage() {
    let mut e = executor_for("cat | exit", None);
    assert!(matches!(e.next_action(), Action::Spawn { .. }));
    e.apply(Outcome::Spawned { ok: true });
    assert!(matches!(e.next_action(), Action::Exit));
    e.apply(Outcome::Exited);
    assert!(matches!(e.next_action(), Action::Done));
}

#[test]
fn failed_spawn_leaves_next_stage_on_terminal_input() {
    let mut e = executor_for("nosuchcommand | cat", None);
    match e.next_action() {
        Action::Spawn { command, stdin_from_pipe, stdout_to_pipe, .. } => {
            assert_eq!(command, "nosuchcommand");
            assert!(!stdin_from_pipe);
            assert!(stdout_to_pipe);
        }
        _ => panic!("first stage should spawn"),
    }
    e.apply(Outcome::Spawned { ok: false });
    match e.next_action() {
        Action::Spawn { command, stdin_from_pipe, stdout_to_pipe, .. } => {
            assert_eq!(command, "cat");
            assert!(!stdin_from_pipe);
            assert!(!stdout_to_pipe);
        }
        _ => panic!("second stage should spawn"),
    }
    e.apply(Outcome::Spawned { ok: true });
    assert!(matches!(e.next_action(), Action::Wait));
    e.apply(Outcome::Waited);
    assert!(matches!(e.next_action(), Action::Done));
}

#[test]
fn empty_stage_is_passed_over_without_breaking_the_chain() {
    let mut e = executor_for("a |  | b", None);
    assert!(matches!(e.next_action(), Action::Spawn { .. }));
    e.apply(Outcome::Spawned { ok: true });
    assert!(matches!(e.next_action(), Action::NoOp));
    e.apply(Outcome::Skipped);
    match e.next_action() {
        Action::Spawn { command, stdin_from_pipe, stdout_to_pipe, .. } => {
            assert_eq!(command, "b");
            assert!(stdin_from_pipe);
            assert!(!stdout_to_pipe);
        }
        _ => panic!("third stage should spawn"),
    }
}

#[test]
fn cd_with_argument_targets_it() {
    let mut e = executor_for("cd /tmp", None);
    match e.next_action() {
        Action::ChangeDir { target } => assert_eq!(target, "/tmp"),
        _ => panic!("cd should change directory"),
    }
    e.apply(Outcome::DirChanged { ok: true });
    assert!(matches!(e.next_action(), Action::Done));
}

#[test]
fn cd_without_argument_targets_root() {
    let mut e = executor_for("cd", None);
    match e.next_action() {
        Action::ChangeDir { target } => assert_eq!(target, "/"),
        _ => panic!("cd should change directory"),
    }
}

#[test]
fn cd_expands_leading_tilde_against_home() {
    let mut e = executor_for("cd ~/work", Some("/home/user"));
    match e.next_action() {
        Action::ChangeDir { target } => assert_eq!(target, "/home/user/work"),
        _ => panic!("cd should change directory"),
    }
    let mut e = executor_for("cd ~", Some("/home/user"));
    match e.next_action() {
        Action::ChangeDir { target } => assert_eq!(target, "/home/user"),
        _ => panic!("cd should change directory"),
    }
}

#[test]
fn tilde_stays_without_home_or_before_user_name() {
    let mut e = executor_for("cd ~/work", None);
    match e.next_action() {
        Action::ChangeDir { target } => assert_eq!(target, "~/work"),
        _ => panic!("cd should change directory"),
    }
    let mut e = executor_for("cd ~other/x", Some("/home/user"));
    match e.next_action() {
        Action::ChangeDir { target } => assert_eq!(target, "~other/x"),
        _ => panic!("cd should change directory"),
    }
}

#[test]
fn resolve_cd_target_expands() {
    let stages = parse_line("cd ~/a/b");
    let home = Some("/root".to_string());
    assert_eq!(resolve_cd_target(&stages[0], &home), "/root/a/b");
    let stages = parse_line("cd");
    assert_eq!(resolve_cd_target(&stages[0], &home), "/");
}

#[test]
fn cd_clears_pipe_chain() {
    let mut e = executor_for("echo hi | cd /tmp | cat", None);
    assert!(matches!(e.next_action(), Action::Spawn { .. }));
    e.apply(Outcome::Spawned { ok: true });
    assert!(matches!(e.next_action(), Action::ChangeDir { .. }));
    e.apply(Outcome::DirChanged { ok: true });
    match e.next_action() {
        Action::Spawn { command, stdin_from_pipe, .. } => {
            assert_eq!(command, "cat");
            assert!(!stdin_from_pipe);
        }
        _ => panic!("third stage should spawn"),
    }
}

#[test]
fn failed_cd_keeps_working_directory_and_pipeline_goes_on() {
    let mut w = WorkDir::new("/start".to_string());
    let mut e = executor_for("cd /nonexistent/path/xyz | echo still", None);
    let target = match e.next_action() {
        Action::ChangeDir { target } => target,
        _ => panic!("cd should change directory"),
    };
    w.apply_change(&target, false);
    assert_eq!(w.current(), "/start");
    e.apply(Outcome::DirChanged { ok: false });
    match e.next_action() {
        Action::Spawn { command, stdin_from_pipe, .. } => {
            assert_eq!(command, "echo");
            assert!(!stdin_from_pipe);
        }
        _ => panic!("pipeline should go on after a failed cd"),
    }
}

#[test]
fn lone_failed_cd_returns_without_wait() {
    let mut e = executor_for("cd /nonexistent/path/xyz", None);
    assert!(matches!(e.next_action(), Action::ChangeDir { .. }));
    e.apply(Outcome::DirChanged { ok: false });
    assert!(matches!(e.next_action(), Action::Done));
}

#[test]
fn successful_cd_moves_working_directory() {
    let mut w = WorkDir::new("/start".to_string());
    let target = "/tmp".to_string();
    w.apply_change(&target, true);
    assert_eq!(w.current(), "/tmp");
}

#[test]
fn prompt_runs_a_line_into_an_executor() {
    let mut p = Prompt::default();
    let mut e = p.run("echo hi");
    match e.next_action() {
        Action::Spawn { command, args, stdin_from_pipe, stdout_to_pipe } => {
            assert_eq!(command, "echo");
            assert_eq!(args, vec!["hi".to_string()]);
            assert!(!stdin_from_pipe);
            assert!(!stdout_to_pipe);
        }
        _ => panic!("the single stage should spawn"),
    }
    e.apply(Outcome::Spawned { ok: true });
    assert!(matches!(e.next_action(), Action::Wait));
}
