use lxwengd::command::{CmdDuration, Command, Span};
use lxwengd::playlist::parse;
use lxwengd::props::Properties;
use lxwengd::runner::{remaining, Action, ExecResult, Order, Phase, Runner, RunnerError, RunnerState};

fn secs(s: u64) -> CmdDuration {
    CmdDuration::Finite(Span { secs: s, nanos: 0 })
}

fn wallpaper(id: &str, d: CmdDuration) -> Command {
    Command::Wallpaper(String::from(id), d, Properties::new())
}

/// Dispatches until an execution begins or the runner stops; returns what began.
fn next_begin(r: &mut Runner) -> Option<Command> {
    loop {
        match r.dispatch() {
            Order::Begin(c, _) => return Some(c),
            Order::Dispatch => continue,
            Order::Stop => return None,
            Order::Await => panic!("dispatch never waits"),
        }
    }
}

#[test]
fn empty_playlist_is_refused() {
    assert_eq!(Runner::new(vec![]).err(), Some(RunnerError::InitFailed));
}

#[test]
fn scenario_reaches_exited_after_all_durations() {
    let cmds = parse("1 15m\n2 1h\n3 6m\nsleep 5m\nend");
    let mut r = Runner::new(cmds).unwrap();
    assert_eq!(r.state(), RunnerState::Ready);
    let mut simulated: u64 = 0;
    let mut begun = 0;
    while let Some(c) = next_begin(&mut r) {
        begun += 1;
        match c {
            Command::Wallpaper(_, CmdDuration::Finite(d), _) | Command::Sleep(CmdDuration::Finite(d)) => {
                simulated += d.secs
            }
            _ => panic!("unexpected command"),
        }
        let reaction = r.on_result(ExecResult::Elapsed, None);
        assert!(reaction.cleanup);
        assert!(matches!(reaction.order, Order::Dispatch));
    }
    assert_eq!(begun, 4);
    assert_eq!(r.state(), RunnerState::Exited);
    assert_eq!(r.phase(), Phase::Done);
    assert!(simulated >= 15 * 60 + 60 * 60 + 6 * 60 + 5 * 60);
}

#[test]
fn errors_and_next_also_advance_to_the_end() {
    let cmds = vec![wallpaper("1", secs(1)), Command::Default(Properties::new()), Command::Sleep(secs(1)), Command::End];
    let mut r = Runner::new(cmds).unwrap();
    assert!(next_begin(&mut r).is_some());
    r.on_result(ExecResult::Error, None);
    assert!(next_begin(&mut r).is_some());
    r.on_result(ExecResult::Interrupted(Action::Next), None);
    assert!(next_begin(&mut r).is_none());
    assert!(r.exited());
}

#[test]
fn cursor_wraps_before_dispatch() {
    let cmds = vec![wallpaper("a", secs(1)), wallpaper("b", secs(1))];
    let mut r = Runner::new(cmds).unwrap();
    assert_eq!(next_begin(&mut r), Some(wallpaper("a", secs(1))));
    r.on_result(ExecResult::Elapsed, None);
    assert_eq!(next_begin(&mut r), Some(wallpaper("b", secs(1))));
    r.on_result(ExecResult::Elapsed, None);
    assert_eq!(r.index(), 2);
    assert_eq!(next_begin(&mut r), Some(wallpaper("a", secs(1))));
    assert!(r.index() < r.len());
    r.on_result(ExecResult::Interrupted(Action::Goto(100)), None);
    assert_eq!(next_begin(&mut r), Some(wallpaper("a", secs(1))));
    assert_eq!(r.index(), 0);
}

#[test]
fn pause_with_clear_leaves_no_child() {
    let mut r = Runner::new(vec![wallpaper("a", secs(600)), Command::End]).unwrap();
    next_begin(&mut r);
    let left = remaining(secs(600), Span { secs: 100, nanos: 0 });
    assert_eq!(left, Some(Span { secs: 500, nanos: 0 }));
    let reaction = r.on_result(ExecResult::Interrupted(Action::Pause(true)), left);
    assert!(reaction.cleanup);
    assert!(matches!(reaction.order, Order::Await));
    assert!(!r.live());
    assert_eq!(r.state(), RunnerState::Paused(Some(Span { secs: 500, nanos: 0 })));
    let reaction = r.resume();
    assert!(!reaction.cleanup);
    assert_eq!(r.index(), 0);
    assert_eq!(next_begin(&mut r), Some(wallpaper("a", secs(600))));
}

#[test]
fn pause_without_clear_keeps_child_until_resume() {
    let mut r = Runner::new(vec![wallpaper("a", CmdDuration::Infinite)]).unwrap();
    next_begin(&mut r);
    let reaction = r.on_result(ExecResult::Interrupted(Action::Pause(false)), None);
    assert!(!reaction.cleanup);
    assert!(r.live());
    assert_eq!(r.state(), RunnerState::Paused(None));
    let reaction = r.resume();
    assert!(reaction.cleanup);
    assert!(!r.live());
}

#[test]
fn goto_executes_target_next() {
    let cmds = vec![wallpaper("a", secs(1)), wallpaper("b", secs(1)), wallpaper("c", secs(1)), Command::End];
    let mut r = Runner::new(cmds).unwrap();
    next_begin(&mut r);
    r.on_result(ExecResult::Interrupted(Action::Goto(2)), None);
    assert_eq!(next_begin(&mut r), Some(wallpaper("c", secs(1))));
    r.on_result(ExecResult::Interrupted(Action::Goto(0)), None);
    assert_eq!(next_begin(&mut r), Some(wallpaper("a", secs(1))));
    r.on_result(ExecResult::Interrupted(Action::Prev), None);
    assert_eq!(r.index(), 0);
    assert_eq!(next_begin(&mut r), Some(wallpaper("a", secs(1))));
}

#[test]
fn exec_keeps_cursor() {
    let cmds = vec![wallpaper("a", secs(1)), wallpaper("b", secs(1)), Command::End];
    let mut r = Runner::new(cmds).unwrap();
    next_begin(&mut r);
    r.on_result(ExecResult::Elapsed, None);
    next_begin(&mut r);
    assert_eq!(r.index(), 1);
    let reaction = r.on_result(ExecResult::Interrupted(Action::Exec(wallpaper("x", secs(9)))), None);
    assert!(reaction.cleanup);
    match reaction.order {
        Order::Begin(c, _) => assert_eq!(c, wallpaper("x", secs(9))),
        _ => panic!("expected an execution"),
    }
    assert_eq!(r.index(), 1);
    assert_eq!(r.phase(), Phase::Executing);
    r.on_result(ExecResult::Interrupted(Action::Exec(Command::Sleep(secs(2)))), None);
    assert_eq!(r.index(), 1);
    r.on_result(ExecResult::Elapsed, None);
    assert_eq!(r.index(), 2);
}

#[test]
fn defaults_accumulate_and_reach_executions() {
    let cmds = parse("default fps=30 audio=false\ndefault fps=60\n1 1s\nend");
    let mut r = Runner::new(cmds).unwrap();
    match r.dispatch() {
        Order::Dispatch => {}
        _ => panic!("a default line is merged"),
    }
    r.dispatch();
    match r.dispatch() {
        Order::Begin(_, d) => {
            assert_eq!(d.get(&String::from("fps")), Some(String::from("60")));
            assert_eq!(d.get(&String::from("audio")), Some(String::from("false")));
        }
        _ => panic!("expected an execution"),
    }
}

#[test]
fn exit_stops_from_anywhere() {
    let mut r = Runner::new(vec![wallpaper("a", CmdDuration::Infinite)]).unwrap();
    next_begin(&mut r);
    let reaction = r.on_result(ExecResult::Interrupted(Action::Exit), None);
    assert!(reaction.cleanup);
    assert!(matches!(reaction.order, Order::Stop));
    assert_eq!(r.state(), RunnerState::Exited);
    assert_eq!(RunnerState::Exited.describe(), "Exited");
}

#[test]
fn remaining_time() {
    assert_eq!(remaining(CmdDuration::Infinite, Span { secs: 5, nanos: 0 }), None);
    assert_eq!(
        remaining(CmdDuration::Finite(Span { secs: 10, nanos: 100 }), Span { secs: 3, nanos: 200 }),
        Some(Span { secs: 6, nanos: 999_999_900 })
    );
    assert_eq!(remaining(secs(10), Span { secs: 11, nanos: 0 }), Some(Span { secs: 0, nanos: 0 }));
}
