use targets::config::{Config, HookError, HookOutcome, Target};
use targets::expand::Environment;
use targets::run::{advance, Cause, Event, Progress, RunError, Step, WriteFailure};

fn target(template: &str, out: &str, hook: Option<Vec<&str>>) -> Target {
    Target {
        template: template.to_string(),
        out: out.to_string(),
        hook: hook.map(|h| h.into_iter().map(|s| s.to_string()).collect()),
    }
}

fn env() -> Environment {
    Environment { home: Some("/home/u".to_string()), vars: vec![] }
}

fn two_targets() -> Config {
    let mut config = Config::new();
    config.insert("b".to_string(), target("~/b.tpl", "~/b.out", None));
    config.insert("a".to_string(), target("~/a.tpl", "~/a.out", Some(vec!["reload", "~/a.out"])));
    config
}

#[test]
fn empty_run_is_done_at_once() {
    let config = Config::new();
    let (next, step) = advance(&config, &env(), Progress::Fresh, Event::Start);
    assert!(matches!(next, Progress::Finished));
    assert!(matches!(step, Step::Done));
}

#[test]
fn first_name_is_processed_first() {
    let config = two_targets();
    let e = env();
    let (next, step) = advance(&config, &e, Progress::Fresh, Event::Start);
    assert!(matches!(next, Progress::Compiling(0)));
    match step {
        Step::Compile { target, template } => {
            assert_eq!(target, 0);
            assert_eq!(config.targets[target].0, "a");
            assert_eq!(template, "/home/u/a.tpl");
        }
        other => panic!("{:?}", other),
    }
    let (next, step) = advance(&config, &e, next, Event::Compiled);
    assert!(matches!(next, Progress::Writing(0)));
    match step {
        Step::Write { target, out, directory } => {
            assert_eq!(target, 0);
            assert_eq!(out, "/home/u/a.out");
            assert_eq!(directory, "/home/u");
        }
        other => panic!("{:?}", other),
    }
    let (next, step) = advance(&config, &e, next, Event::Written);
    assert!(matches!(next, Progress::Hooking(0)));
    match step {
        Step::Spawn { target, argv } => {
            assert_eq!(target, 0);
            assert_eq!(argv, vec!["reload", "/home/u/a.out"]);
        }
        other => panic!("{:?}", other),
    }
    let (next, step) = advance(&config, &e, next, Event::HookEnded(HookOutcome::Exited(0)));
    assert!(matches!(next, Progress::Compiling(1)));
    match step {
        Step::Compile { target, template } => {
            assert_eq!(target, 1);
            assert_eq!(config.targets[target].0, "b");
            assert_eq!(template, "/home/u/b.tpl");
        }
        other => panic!("{:?}", other),
    }
    let (next, _) = advance(&config, &e, next, Event::Compiled);
    assert!(matches!(next, Progress::Writing(1)));
    let (next, step) = advance(&config, &e, next, Event::Written);
    assert!(matches!(next, Progress::Finished));
    assert!(matches!(step, Step::Done));
}

#[test]
fn compile_failure_ends_the_run() {
    let config = two_targets();
    let e = env();
    let (next, step) =
        advance(&config, &e, Progress::Compiling(1), Event::CompileFailed("bad tag".to_string()));
    assert!(matches!(next, Progress::Aborted));
    match step {
        Step::Fail(RunError { name, target, cause: Cause::Compile(reason) }) => {
            assert_eq!(name, "b");
            assert_eq!(target, 1);
            assert_eq!(reason, "bad tag");
        }
        other => panic!("{:?}", other),
    }
    let (next, step) = advance(&config, &e, next, Event::Compiled);
    assert!(matches!(next, Progress::Aborted));
    assert!(matches!(step, Step::Fail(RunError { cause: Cause::OutOfTurn, .. })));
}

#[test]
fn write_failure_ends_the_run() {
    let config = two_targets();
    let (next, step) = advance(
        &config,
        &env(),
        Progress::Writing(0),
        Event::WriteFailed(WriteFailure::CreateDirectory("not a directory".to_string())),
    );
    assert!(matches!(next, Progress::Aborted));
    assert!(matches!(
        step,
        Step::Fail(RunError { name: _, target: 0, cause: Cause::Write(WriteFailure::CreateDirectory(_)) })
    ));
    let (_, step) =
        advance(&config, &env(), Progress::Writing(0), Event::WriteFailed(WriteFailure::NoParent));
    assert!(matches!(
        step,
        Step::Fail(RunError { name: _, target: 0, cause: Cause::Write(WriteFailure::NoParent) })
    ));
}

#[test]
fn failed_hook_ends_the_run() {
    let config = two_targets();
    let (next, step) =
        advance(&config, &env(), Progress::Hooking(0), Event::HookEnded(HookOutcome::Exited(2)));
    assert!(matches!(next, Progress::Aborted));
    assert!(matches!(
        step,
        Step::Fail(RunError { name: _, target: 0, cause: Cause::Hook(HookError::Exit { code: 2 }) })
    ));
    let (next, step) =
        advance(&config, &env(), Progress::Hooking(0), Event::HookEnded(HookOutcome::Signaled));
    assert!(matches!(next, Progress::Aborted));
    assert!(matches!(
        step,
        Step::Fail(RunError { name: _, target: 0, cause: Cause::Hook(HookError::Signal) })
    ));
}

#[test]
fn empty_hook_fails_before_anything_is_spawned() {
    let mut config = Config::new();
    config.insert("a".to_string(), target("t", "o", Some(vec![])));
    config.insert("b".to_string(), target("t", "o", None));
    let (next, step) = advance(&config, &env(), Progress::Writing(0), Event::Written);
    assert!(matches!(next, Progress::Aborted));
    assert!(matches!(
        step,
        Step::Fail(RunError { name: _, target: 0, cause: Cause::Hook(HookError::Empty) })
    ));
}

#[test]
fn undefined_variable_in_a_path_ends_the_run() {
    let mut config = Config::new();
    config.insert("a".to_string(), target("$TEMPLATES/a", "$OUT/a", None));
    let (next, step) = advance(&config, &env(), Progress::Fresh, Event::Start);
    assert!(matches!(next, Progress::Aborted));
    match step {
        Step::Fail(RunError { name, target, cause: Cause::TemplatePath(e) }) => {
            assert_eq!(name, "a");
            assert_eq!(target, 0);
            assert_eq!(e.variable, "TEMPLATES");
        }
        other => panic!("{:?}", other),
    }
    let (next, step) = advance(&config, &env(), Progress::Compiling(0), Event::Compiled);
    assert!(matches!(next, Progress::Aborted));
    match step {
        Step::Fail(RunError { name: _, target, cause: Cause::OutPath(e) }) => {
            assert_eq!(target, 0);
            assert_eq!(e.variable, "OUT");
        }
        other => panic!("{:?}", other),
    }
}

#[test]
fn event_out_of_turn_ends_the_run() {
    let config = two_targets();
    let e = env();
    let (next, step) = advance(&config, &e, Progress::Fresh, Event::Written);
    assert!(matches!(next, Progress::Aborted));
    assert!(matches!(step, Step::Fail(RunError { cause: Cause::OutOfTurn, .. })));
    let (next, step) = advance(&config, &e, Progress::Compiling(5), Event::Compiled);
    assert!(matches!(next, Progress::Aborted));
    assert!(matches!(step, Step::Fail(RunError { cause: Cause::OutOfTurn, .. })));
    let (next, step) = advance(&config, &e, Progress::Finished, Event::Start);
    assert!(matches!(next, Progress::Aborted));
    assert!(matches!(step, Step::Fail(RunError { cause: Cause::OutOfTurn, .. })));
}

#[test]
fn output_path_without_parent_ends_the_run() {
    let mut config = Config::new();
    config.insert("root".to_string(), target("t", "/", None));
    config.insert("empty".to_string(), target("t", "", None));
    config.insert("plain".to_string(), target("t", "file.txt", None));
    config.insert("deep".to_string(), target("t", "a/b/c.txt", None));
    let e = env();
    for (name, expected) in [("deep", Some("a/b")), ("plain", Some("")), ("root", None), ("empty", None)] {
        let i = config.targets.iter().position(|(n, _)| n == name).unwrap();
        let (next, step) = advance(&config, &e, Progress::Compiling(i), Event::Compiled);
        match (expected, step) {
            (Some(dir), Step::Write { target, directory, .. }) => {
                assert!(matches!(next, Progress::Writing(_)));
                assert_eq!(target, i);
                assert_eq!(directory, dir);
            }
            (None, Step::Fail(RunError { target, cause: Cause::Write(WriteFailure::NoParent), .. })) => {
                assert!(matches!(next, Progress::Aborted));
                assert_eq!(target, i);
            }
            (_, other) => panic!("{:?}", other),
        }
    }
}

#[test]
fn same_event_gives_the_same_step_again() {
    let config = two_targets();
    let e = env();
    let cases = vec![
        (Progress::Fresh, Event::Start),
        (Progress::Compiling(0), Event::Compiled),
        (Progress::Writing(0), Event::Written),
        (Progress::Writing(1), Event::Written),
        (Progress::Hooking(0), Event::HookEnded(HookOutcome::Exited(0))),
        (Progress::Hooking(0), Event::HookEnded(HookOutcome::Exited(1))),
        (Progress::Compiling(1), Event::CompileFailed("x".to_string())),
    ];
    for (progress, event) in cases {
        let first = advance(&config, &e, progress.clone(), event.clone());
        let second = advance(&config, &e, progress, event);
        assert_eq!(format!("{:?}", first), format!("{:?}", second));
    }
}

#[test]
fn configuration_out_of_order_ends_the_run() {
    let config = Config {
        targets: vec![
            ("b".to_string(), target("tb", "ob", None)),
            ("a".to_string(), target("ta", "oa", None)),
        ],
    };
    let e = env();
    let (next, step) = advance(&config, &e, Progress::Fresh, Event::Start);
    assert!(matches!(next, Progress::Aborted));
    assert!(matches!(step, Step::Fail(RunError { cause: Cause::NotInOrder, .. })));
    let (next, step) = advance(&config, &e, Progress::Compiling(0), Event::Compiled);
    assert!(matches!(next, Progress::Aborted));
    assert!(matches!(step, Step::Fail(RunError { cause: Cause::NotInOrder, .. })));
    let doubled = Config {
        targets: vec![
            ("a".to_string(), target("ta", "oa", None)),
            ("a".to_string(), target("ta", "oa", None)),
        ],
    };
    let (_, step) = advance(&doubled, &e, Progress::Fresh, Event::Start);
    assert!(matches!(step, Step::Fail(RunError { cause: Cause::NotInOrder, .. })));
}
