use lxwengd::ipc::parse;
use lxwengd::registry::{DaemonError, Plan, Registry, Snapshot};
use lxwengd::runner::{Action, ExecResult, Order, Runner, RunnerState};
use lxwengd::command::{CmdDuration, Command};
use lxwengd::props::Properties;

fn reply_of(p: &Plan) -> Option<&str> {
    match p {
        Plan::Reply(t) => Some(t.as_str()),
        _ => None,
    }
}

#[test]
fn pause_without_runner_is_refused() {
    let reg: Registry<()> = Registry::new();
    let plan = reg.plan(parse("pause true mon1").unwrap());
    assert_eq!(reply_of(&plan), Some("No such runner"));
    assert_eq!(DaemonError::NoSuchRunner.message(), "No such runner");
}

#[test]
fn second_load_on_a_monitor_is_refused() {
    let mut reg: Registry<u32> = Registry::new();
    let first = reg.plan(parse("load x.playlist mon1 false apply").unwrap());
    match first {
        Plan::Load { monitor, .. } => {
            assert_eq!(reg.register(monitor, 1), Ok(()));
        }
        _ => panic!("the first load is planned"),
    }
    let second = reg.plan(parse("load x.playlist mon1 false apply").unwrap());
    assert!(reply_of(&second).unwrap().contains("already in use"));
    assert_eq!(reg.register(String::from("mon1"), 2), Err(DaemonError::AlreadyInUse));
    assert_eq!(reg.len(), 1);
    assert_eq!(*reg.handle(0), 1);
}

#[test]
fn requests_go_to_their_runner() {
    let mut reg: Registry<&str> = Registry::new();
    reg.register(String::from("DP-1"), "first").unwrap();
    reg.register(String::from("DP-2"), "second").unwrap();
    match reg.plan(parse("play DP-2").unwrap()) {
        Plan::Forward { index, action } => {
            assert_eq!(index, 1);
            assert_eq!(action, Action::Next);
        }
        _ => panic!("expected a forward"),
    }
    match reg.plan(parse("unload false DP-1").unwrap()) {
        Plan::Forward { index, action } => {
            assert_eq!(index, 0);
            assert_eq!(action, Action::Exit);
        }
        _ => panic!("expected a forward"),
    }
    match reg.plan(parse("pause false DP-1").unwrap()) {
        Plan::Forward { action, .. } => assert_eq!(action, Action::Pause(false)),
        _ => panic!("expected a forward"),
    }
    assert!(matches!(reg.plan(parse("status").unwrap()), Plan::Status));
}

#[test]
fn purge_and_status_leave_out_exited_runners() {
    let mut reg: Registry<u8> = Registry::new();
    for (m, h) in [("a", 1), ("b", 2), ("c", 3)] {
        reg.register(String::from(m), h).unwrap();
    }
    let snaps = vec![
        Snapshot { state: RunnerState::Ready, path: String::from("a.playlist"), index: 0 },
        Snapshot { state: RunnerState::Exited, path: String::from("b.playlist"), index: 4 },
        Snapshot { state: RunnerState::Paused(None), path: String::from("c.playlist"), index: 2 },
    ];
    let lines = reg.status_lines(&snaps);
    assert_eq!(lines.len(), 2);
    assert_eq!(lines[0].monitor, "a");
    assert_eq!(lines[1].monitor, "c");
    assert_eq!(lines[1].index, 2);
    assert!(lines.iter().all(|l| l.state != RunnerState::Exited));
    reg.purge(&vec![false, true, false]);
    assert_eq!(reg.len(), 2);
    assert_eq!(reg.monitor(0), "a");
    assert_eq!(reg.monitor(1), "c");
    assert_eq!(reg.position(&String::from("b")), None);
    assert_eq!(reg.register(String::from("b"), 9), Ok(()));
}

#[test]
fn quit_stops_every_runner() {
    // The registry holds an index into the runners, as the daemon holds a shared handle.
    let mut runners: Vec<Runner> = Vec::new();
    let mut reg: Registry<usize> = Registry::new();
    for m in ["mon1", "mon2"] {
        let cmds = vec![Command::Wallpaper(String::from("1"), CmdDuration::Infinite, Properties::new())];
        let mut r = Runner::new(cmds).unwrap();
        assert!(matches!(r.dispatch(), Order::Begin(..)));
        runners.push(r);
        reg.register(String::from(m), runners.len() - 1).unwrap();
    }
    assert!(matches!(reg.plan(parse("quit").unwrap()), Plan::Quit));
    for i in 0..reg.len() {
        let r = &mut runners[*reg.handle(i)];
        let reaction = r.on_result(ExecResult::Interrupted(Action::Exit), None);
        assert!(reaction.cleanup);
        assert!(matches!(reaction.order, Order::Stop));
    }
    assert!(runners.iter().all(|r| !matches!(r.state(), RunnerState::Running(_) | RunnerState::Paused(_))));
    let exited: Vec<bool> = runners.iter().map(|r| r.exited()).collect();
    reg.purge(&exited);
    assert_eq!(reg.len(), 0);
}
