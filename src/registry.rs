//! The registry of runners, one per monitor key, and the daemon's answer to
//! each request of the control channel.

use vstd::prelude::*;

use crate::ipc::{IPCCmd, ResumeMode};
use crate::runner::{Action, RunnerState};

verus! {

/// Why a request to the daemon failed.
#[derive(Clone, Copy, Debug, PartialEq, Eq, Structural)]
pub enum DaemonError {
    InitSocket,
    InitLogger,
    InitCache,
    /// No live runner on the monitor that the request names.
    NoSuchRunner,
    /// The monitor already has a live runner.
    AlreadyInUse,
}

impl DaemonError {
    pub fn message(&self) -> (r: &'static str)
        ensures
            *self == DaemonError::NoSuchRunner ==> r@ == "No such runner"@,
            *self == DaemonError::AlreadyInUse ==> r@ == "Monitor already in use"@,
    {
        match self {
            DaemonError::InitSocket => "Failed to initialise socket",
            DaemonError::InitLogger => "Failed to initialise logger",
            DaemonError::InitCache => "Failed to initialise cache",
            DaemonError::NoSuchRunner => "No such runner",
            DaemonError::AlreadyInUse => "Monitor already in use",
        }
    }
}

/// The keys of a sequence of entries.
pub open spec fn keys_of<H>(es: Seq<(Seq<char>, H)>) -> Seq<Seq<char>> {
    es.map_values(|e: (Seq<char>, H)| e.0)
}

/// The entries whose flag is not set, in order.
pub open spec fn kept<H>(es: Seq<(Seq<char>, H)>, exited: Seq<bool>) -> Seq<(Seq<char>, H)>
    decreases es.len(),
{
    if es.len() == 0 || exited.len() == 0 {
        Seq::empty()
    } else {
        let rest = kept(es.drop_first(), exited.drop_first());
        if exited[0] {
            rest
        } else {
            seq![es[0]] + rest
        }
    }
}

/// A runner's handle as an observer reads it.
#[derive(Clone, Debug, PartialEq, Eq)]
pub struct Snapshot {
    pub state: RunnerState,
    pub path: String,
    pub index: usize,
}

/// One runner in a status report.
#[derive(Clone, Debug, PartialEq, Eq)]
pub struct StatusLine {
    pub monitor: String,
    pub state: RunnerState,
    pub path: String,
    pub index: usize,
}

pub open spec fn line_of(monitor: Seq<char>, s: Snapshot) -> (Seq<char>, RunnerState, Seq<char>, usize) {
    (monitor, s.state, s.path@, s.index)
}

pub open spec fn line_view(l: StatusLine) -> (Seq<char>, RunnerState, Seq<char>, usize) {
    (l.monitor@, l.state, l.path@, l.index)
}

/// The report of the first `n` runners: those not `Exited`, in order.
pub open spec fn listed(keys: Seq<Seq<char>>, snaps: Seq<Snapshot>, n: int) -> Seq<
    (Seq<char>, RunnerState, Seq<char>, usize),
>
    decreases n,
{
    if n <= 0 {
        Seq::empty()
    } else {
        let r = listed(keys, snaps, n - 1);
        if snaps[n - 1].state == RunnerState::Exited {
            r
        } else {
            r.push(line_of(keys[n - 1], snaps[n - 1]))
        }
    }
}

/// What the daemon does with a request.
#[derive(Debug)]
pub enum Plan {
    /// Reply with this text.
    Reply(String),
    /// Start a runner for the playlist at `path` on `monitor`, which is free,
    /// register it, and reply `OK`, or the error that starting it gave.
    Load { path: String, monitor: String, paused: bool, resume_mode: ResumeMode },
    /// Send `action` to the runner at `index`; reply `OK`, or `No such runner`
    /// where its channel is closed.
    Forward { index: usize, action: Action },
    /// Reply with the report of every runner.
    Status,
    /// Send `Exit` to every runner, reply `OK`, and accept no more requests.
    Quit,
}

/// Runner handles by monitor key; a key stands at most once.
pub struct Registry<H> {
    entries: Vec<(String, H)>,
}

pub open spec fn unique<H>(es: Seq<(Seq<char>, H)>) -> bool {
    forall|i: int, j: int| 0 <= i < es.len() && 0 <= j < es.len() && i != j ==> es[i].0 != es[j].0
}

proof fn lemma_kept_skip<H>(es: Seq<(Seq<char>, H)>, ex: Seq<bool>, i: int)
    requires
        0 <= i < es.len(),
        es.len() == ex.len(),
    ensures
        kept(es.skip(i), ex.skip(i)) == if ex[i] {
            kept(es.skip(i + 1), ex.skip(i + 1))
        } else {
            seq![es[i]] + kept(es.skip(i + 1), ex.skip(i + 1))
        },
{
    assert(es.skip(i).drop_first() =~= es.skip(i + 1));
    assert(ex.skip(i).drop_first() =~= ex.skip(i + 1));
}

/// Once a runner is registered under a monitor, the monitor is taken: a
/// second `load` on it is refused (see `plan`) and a second registration
/// under it fails and leaves the registry as it was (see `register`); the
/// keys stay unique.
pub proof fn lemma_registered_monitor_taken<H>(es: Seq<(Seq<char>, H)>, monitor: Seq<char>, handle: H)
    requires
        unique(es),
        !keys_of(es).contains(monitor),
    ensures
        keys_of(es.push((monitor, handle))).contains(monitor),
        unique(es.push((monitor, handle))),
{
    let after = es.push((monitor, handle));
    assert(keys_of(after)[es.len() as int] == monitor);
    assert forall|j: int| 0 <= j < es.len() implies es[j].0 != monitor by {
        assert(keys_of(es)[j] == es[j].0);
    }
}

impl<H> Registry<H> {
    pub closed spec fn entries(&self) -> Seq<(Seq<char>, H)> {
        self.entries@.map_values(|e: (String, H)| (e.0@, e.1))
    }

    pub open spec fn keys(&self) -> Seq<Seq<char>> {
        keys_of(self.entries())
    }

    pub open spec fn wf(&self) -> bool {
        unique(self.entries())
    }

    pub fn new() -> (r: Registry<H>)
        ensures
            r.wf(),
            r.entries() == Seq::<(Seq<char>, H)>::empty(),
    {
        let r = Registry { entries: Vec::new() };
        assert(r.entries() =~= Seq::<(Seq<char>, H)>::empty());
        r
    }

    pub fn len(&self) -> (n: usize)
        ensures
            n == self.entries().len(),
    {
        self.entries.len()
    }

    pub fn monitor(&self, i: usize) -> (r: &String)
        requires
            i < self.entries().len(),
        ensures
            r@ == self.entries()[i as int].0,
    {
        &self.entries[i].0
    }

    pub fn handle(&self, i: usize) -> (r: &H)
        requires
            i < self.entries().len(),
        ensures
            *r == self.entries()[i as int].1,
    {
        &self.entries[i].1
    }

    /// Where the runner on `monitor` stands.
    pub fn position(&self, monitor: &String) -> (r: Option<usize>)
        ensures
            r matches Some(i) ==> i < self.entries().len() && self.entries()[i as int].0 == monitor@,
            r is None ==> !self.keys().contains(monitor@),
    {
        let mut i: usize = 0;
        while i < self.entries.len()
            invariant
                i <= self.entries().len(),
                self.entries().len() == self.entries@.len(),
                forall|j: int| 0 <= j < i ==> self.entries()[j].0 != monitor@,
            decreases self.entries@.len() - i,
        {
            if self.entries[i].0 == *monitor {
                return Some(i);
            }
            i += 1;
        }
        proof {
            if self.keys().contains(monitor@) {
                let j = choose|j: int| 0 <= j < self.keys().len() && self.keys()[j] == monitor@;
                assert(self.entries()[j].0 == monitor@);
            }
        }
        None
    }

    /// Registers `handle` under `monitor`, unless `monitor` already has one.
    pub fn register(&mut self, monitor: String, handle: H) -> (r: Result<(), DaemonError>)
        requires
            old(self).wf(),
        ensures
            final(self).wf(),
            old(self).keys().contains(monitor@) <==> r is Err,
            r matches Err(e) ==> e == DaemonError::AlreadyInUse && final(self).entries() == old(self).entries(),
            r is Ok ==> final(self).entries() == old(self).entries().push((monitor@, handle)),
    {
        match self.position(&monitor) {
            Some(i) => {
                assert(self.keys()[i as int] == monitor@);
                Err(DaemonError::AlreadyInUse)
            },
            None => {
                let ghost es = self.entries();
                let ghost k = monitor@;
                self.entries.push((monitor, handle));
                assert(self.entries() =~= es.push((k, handle)));
                assert forall|j: int| 0 <= j < es.len() implies es[j].0 != k by {
                    assert(keys_of(es)[j] == es[j].0);
                }
                Ok(())
            },
        }
    }

    /// Removes the runners whose flag in `exited` is set.
    pub fn purge(&mut self, exited: &Vec<bool>)
        requires
            old(self).wf(),
            exited@.len() == old(self).entries().len(),
        ensures
            final(self).wf(),
            final(self).entries() == kept(old(self).entries(), exited@),
    {
        let ghost es = self.entries();
        let ghost ex = exited@;
        let mut i: usize = self.entries.len();
        proof {
            assert(es.skip(i as int) =~= Seq::<(Seq<char>, H)>::empty());
            assert(es.take(i as int) =~= es);
            assert(self.entries() =~= es.take(i as int) + kept(es.skip(i as int), ex.skip(i as int)));
        }
        while i > 0
            invariant
                i <= es.len(),
                es.len() == ex.len(),
                ex == exited@,
                self.wf(),
                self.entries() == es.take(i as int) + kept(es.skip(i as int), ex.skip(i as int)),
                self.entries@.len() == self.entries().len(),
            decreases i,
        {
            let ghost before = self.entries();
            proof {
                lemma_kept_skip(es, ex, i - 1);
            }
            if exited[i - 1] {
                let _gone = self.entries.remove(i - 1);
                assert(self.entries() =~= before.remove(i - 1));
                assert(self.entries() =~= es.take(i - 1) + kept(es.skip(i - 1), ex.skip(i - 1)));
            } else {
                assert(es.take(i as int) =~= es.take(i - 1).push(es[i - 1]));
                assert(self.entries() =~= es.take(i - 1) + kept(es.skip(i - 1), ex.skip(i - 1)));
            }
            i -= 1;
        }
        assert(es.take(0) + kept(es.skip(0), ex.skip(0)) =~= kept(es, ex)) by {
            assert(es.skip(0) =~= es);
            assert(ex.skip(0) =~= ex);
        }
    }

    /// The report of the runners whose snapshot is not `Exited`, in order;
    /// `snaps` holds one snapshot per runner.
    pub fn status_lines(&self, snaps: &Vec<Snapshot>) -> (r: Vec<StatusLine>)
        requires
            snaps@.len() == self.entries().len(),
        ensures
            r@.map_values(|l: StatusLine| line_view(l)) == listed(self.keys(), snaps@, snaps@.len() as int),
            forall|j: int| 0 <= j < r@.len() ==> r@[j].state != RunnerState::Exited,
    {
        let mut out: Vec<StatusLine> = Vec::new();
        let mut i: usize = 0;
        while i < snaps.len()
            invariant
                i <= snaps@.len(),
                snaps@.len() == self.entries().len(),
                out@.map_values(|l: StatusLine| line_view(l)) == listed(self.keys(), snaps@, i as int),
                forall|j: int| 0 <= j < out@.len() ==> out@[j].state != RunnerState::Exited,
            decreases snaps@.len() - i,
        {
            let s = &snaps[i];
            let ghost before = out@.map_values(|l: StatusLine| line_view(l));
            match s.state {
                RunnerState::Exited => {},
                _ => {
                    let line = StatusLine {
                        monitor: self.entries[i].0.clone(),
                        state: s.state,
                        path: s.path.clone(),
                        index: s.index,
                    };
                    out.push(line);
                    assert(self.keys()[i as int] == self.entries()[i as int].0);
                    assert(out@.map_values(|l: StatusLine| line_view(l)) =~= before.push(
                        line_of(self.keys()[i as int], snaps@[i as int]),
                    ));
                },
            }
            i += 1;
        }
        out
    }

    /// What to do with `cmd`: a load on a free monitor is planned, one on a
    /// taken monitor refused; `unload`, `pause` and `play` go to the runner
    /// on their monitor as `Exit`, `Pause` and `Next`, or are refused where
    /// the monitor has none.
    pub fn plan(&self, cmd: IPCCmd) -> (r: Plan)
        ensures
            match cmd {
                IPCCmd::Load { path, monitor, paused, resume_mode } => if self.keys().contains(monitor@) {
                    r matches Plan::Reply(t) && t@ == "Monitor already in use"@
                } else {
                    r matches Plan::Load { path: p, monitor: m, paused: q, resume_mode: rm } && p@ == path@
                        && m@ == monitor@ && q == paused && rm == resume_mode
                },
                IPCCmd::Unload { no_save: _, monitor } => self.forwards(r, monitor@, Action::Exit),
                IPCCmd::Pause { clear, monitor } => self.forwards(r, monitor@, Action::Pause(clear)),
                IPCCmd::Play { monitor } => self.forwards(r, monitor@, Action::Next),
                IPCCmd::Status => r is Status,
                IPCCmd::Quit => r is Quit,
            },
    {
        match cmd {
            IPCCmd::Load { path, monitor, paused, resume_mode } => match self.position(&monitor) {
                Some(i) => {
                    assert(self.keys()[i as int] == monitor@);
                    Plan::Reply(DaemonError::AlreadyInUse.message().to_owned())
                },
                None => Plan::Load { path, monitor, paused, resume_mode },
            },
            IPCCmd::Unload { no_save: _, monitor } => self.forward(&monitor, Action::Exit),
            IPCCmd::Pause { clear, monitor } => self.forward(&monitor, Action::Pause(clear)),
            IPCCmd::Play { monitor } => self.forward(&monitor, Action::Next),
            IPCCmd::Status => Plan::Status,
            IPCCmd::Quit => Plan::Quit,
        }
    }

    /// `r` sends `action` to the runner on `monitor`, or says there is none.
    pub open spec fn forwards(&self, r: Plan, monitor: Seq<char>, action: Action) -> bool {
        if self.keys().contains(monitor) {
            r matches Plan::Forward { index, action: a } && index < self.entries().len()
                && self.entries()[index as int].0 == monitor && a == action
        } else {
            r matches Plan::Reply(t) && t@ == "No such runner"@
        }
    }

    fn forward(&self, monitor: &String, action: Action) -> (r: Plan)
        ensures
            self.forwards(r, monitor@, action),
    {
        match self.position(monitor) {
            Some(i) => {
                assert(self.keys()[i as int] == monitor@);
                Plan::Forward { index: i, action }
            },
            None => Plan::Reply(DaemonError::NoSuchRunner.message().to_owned()),
        }
    }
}

} // verus!
