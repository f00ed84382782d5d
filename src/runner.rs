//! The runner: an ordered list of commands, a cursor, and the decisions taken
//! between executions. The caller performs what each decision orders (begins
//! an execution, ends one, waits for an action) and reports back.

use vstd::prelude::*;

use crate::command::{saturating_minus, span_minus, CmdDuration, Command, CommandView, Span};
use crate::props::Properties;

verus! {

/// Why a runner could not start or a process could not be handled.
#[derive(Clone, Copy, Debug, PartialEq, Eq, Structural)]
pub enum RunnerError {
    /// The playlist could not be read or holds no command.
    InitFailed,
    /// The rendering program could not be started.
    CannotSpawn,
    /// The rendering program ended before its time.
    EngineDied,
    /// A live rendering program could not be signalled to end.
    CleanupFail,
}

impl RunnerError {
    pub fn message(&self) -> (r: &'static str) {
        match self {
            RunnerError::InitFailed => "Runner init failed",
            RunnerError::CannotSpawn => "Cannot spawn `linux-wallpaperengine`",
            RunnerError::EngineDied => "`linux-wallpaperengine` unexpectedly exited",
            RunnerError::CleanupFail => "Cannot terminate `linux-wallpaperengine`",
        }
    }
}

/// A request that interrupts a runner.
#[derive(Clone, Debug, PartialEq)]
pub enum Action {
    /// Go on to the next command.
    Next,
    /// Go back to the previous command.
    Prev,
    /// Go to the command at this index.
    Goto(usize),
    /// Execute this command now, outside the playlist.
    Exec(Command),
    /// Pause; `true` also ends what is shown.
    Pause(bool),
    /// Stop the runner.
    Exit,
}

pub enum ActionView {
    Next,
    Prev,
    Goto(usize),
    Exec(CommandView),
    Pause(bool),
    Exit,
}

impl View for Action {
    type V = ActionView;

    open spec fn view(&self) -> ActionView {
        match self {
            Action::Next => ActionView::Next,
            Action::Prev => ActionView::Prev,
            Action::Goto(i) => ActionView::Goto(*i),
            Action::Exec(c) => ActionView::Exec(c@),
            Action::Pause(b) => ActionView::Pause(*b),
            Action::Exit => ActionView::Exit,
        }
    }
}

/// How an execution ended.
#[derive(Clone, Debug, PartialEq)]
pub enum ExecResult {
    /// Its time elapsed.
    Elapsed,
    /// An action arrived first.
    Interrupted(Action),
    /// The rendering program ended on its own before its time.
    Error,
}

pub enum ExecResultView {
    Elapsed,
    Interrupted(ActionView),
    Error,
}

impl View for ExecResult {
    type V = ExecResultView;

    open spec fn view(&self) -> ExecResultView {
        match self {
            ExecResult::Elapsed => ExecResultView::Elapsed,
            ExecResult::Interrupted(a) => ExecResultView::Interrupted(a@),
            ExecResult::Error => ExecResultView::Error,
        }
    }
}

/// What is known of the execution in flight.
#[derive(Clone, Copy, Debug, PartialEq, Eq, Structural)]
pub struct ExecInfo {
    pub duration: CmdDuration,
}

/// What a runner is doing, as observers see it.
#[derive(Clone, Copy, Debug, PartialEq, Eq, Structural)]
pub enum RunnerState {
    /// Nothing dispatched yet.
    Ready,
    /// An execution is, or was last, under way.
    Running(ExecInfo),
    /// Paused, with the time that was left, if the command was finite.
    Paused(Option<Span>),
    /// Finished for good.
    Exited,
}

impl RunnerState {
    pub fn describe(&self) -> (r: &'static str) {
        match self {
            RunnerState::Ready => "Ready",
            RunnerState::Running(_) => "Running",
            RunnerState::Paused(_) => "Paused",
            RunnerState::Exited => "Exited",
        }
    }
}

/// Where the runner's loop stands.
#[derive(Clone, Copy, Debug, PartialEq, Eq, Structural)]
pub enum Phase {
    /// Between executions: `dispatch` comes next.
    Idle,
    /// An execution is under way: its result comes next.
    Executing,
    /// Waiting for one action: `resume` comes next.
    Paused,
    /// Finished.
    Done,
}

/// What the caller does next.
#[derive(Debug)]
pub enum Order {
    /// Begin an execution of this command, over these default properties.
    Begin(Command, Properties),
    /// Call `dispatch`.
    Dispatch,
    /// Wait for one action, then call `resume`.
    Await,
    /// The runner has finished.
    Stop,
}

pub enum OrderView {
    Begin(CommandView, Map<Seq<char>, Seq<char>>),
    Dispatch,
    Await,
    Stop,
}

impl View for Order {
    type V = OrderView;

    open spec fn view(&self) -> OrderView {
        match self {
            Order::Begin(c, p) => OrderView::Begin(c@, p.map()),
            Order::Dispatch => OrderView::Dispatch,
            Order::Await => OrderView::Await,
            Order::Stop => OrderView::Stop,
        }
    }
}

/// The answer to an execution's end or to the action that ends a pause.
#[derive(Debug)]
pub struct Reaction {
    /// End the execution in flight first (a no-op where its program has ended).
    pub cleanup: bool,
    pub order: Order,
}

pub struct ReactionView {
    pub cleanup: bool,
    pub order: OrderView,
}

impl View for Reaction {
    type V = ReactionView;

    open spec fn view(&self) -> ReactionView {
        ReactionView { cleanup: self.cleanup, order: self.order@ }
    }
}

/// The cursor as it is read: past the end it wraps to the start.
pub open spec fn normalized(index: int, len: int) -> int {
    if index >= len {
        0
    } else {
        index
    }
}

/// The duration of a command that an execution runs.
pub open spec fn duration_of(c: CommandView) -> CmdDuration {
    match c {
        CommandView::Wallpaper(_, d, _) => d,
        CommandView::Sleep(d) => d,
        _ => CmdDuration::Infinite,
    }
}

/// A runner as a mathematical value.
pub struct RunnerModel {
    pub index: int,
    pub commands: Seq<CommandView>,
    pub defaults: Map<Seq<char>, Seq<char>>,
    pub state: RunnerState,
    pub info: ExecInfo,
    pub phase: Phase,
    /// An execution has begun and has not been cleaned up.
    pub live: bool,
}

impl RunnerModel {
    pub open spec fn len(self) -> int {
        self.commands.len() as int
    }

    pub open spec fn wf(self) -> bool {
        &&& 0 < self.len() <= usize::MAX
        &&& 0 <= self.index <= usize::MAX
        &&& (self.phase == Phase::Executing || self.phase == Phase::Paused) ==> self.index < self.len() && (
        self.commands[self.index] is Wallpaper || self.commands[self.index] is Sleep)
        &&& self.phase == Phase::Executing ==> self.live && self.state == RunnerState::Running(self.info)
        &&& self.phase == Phase::Paused ==> self.state is Paused
        &&& self.phase == Phase::Idle ==> !self.live && !(self.state is Exited)
        &&& self.phase == Phase::Done ==> !self.live && self.state == RunnerState::Exited
    }

    /// The runner once an execution of `c` has begun.
    pub open spec fn begun(self, c: CommandView) -> RunnerModel {
        RunnerModel {
            state: RunnerState::Running(ExecInfo { duration: duration_of(c) }),
            info: ExecInfo { duration: duration_of(c) },
            phase: Phase::Executing,
            live: true,
            ..self
        }
    }

    /// The runner between executions, with its cursor at `index`.
    pub open spec fn idle_at(self, index: int) -> RunnerModel {
        RunnerModel { index, phase: Phase::Idle, live: false, ..self }
    }

    /// The runner after it has stopped.
    pub open spec fn exited(self) -> RunnerModel {
        RunnerModel { state: RunnerState::Exited, phase: Phase::Done, live: false, ..self }
    }

    /// Reading the command under the cursor.
    pub open spec fn dispatch_spec(self) -> (RunnerModel, OrderView) {
        let i = normalized(self.index, self.len());
        let c = self.commands[i];
        match c {
            CommandView::Default(p) => (
                RunnerModel { index: i + 1, defaults: self.defaults.union_prefer_right(p), ..self },
                OrderView::Dispatch,
            ),
            CommandView::End => (RunnerModel { index: i, ..self }.exited(), OrderView::Stop),
            _ => (RunnerModel { index: i, ..self }.begun(c), OrderView::Begin(c, self.defaults)),
        }
    }

    /// Answering the end of the execution in flight.
    pub open spec fn result_spec(self, r: ExecResultView, remaining: Option<Span>) -> (RunnerModel, ReactionView) {
        let go_on = ReactionView { cleanup: true, order: OrderView::Dispatch };
        match r {
            ExecResultView::Interrupted(ActionView::Prev) => (
                self.idle_at(if self.index > 0 { self.index - 1 } else { 0 }),
                go_on,
            ),
            ExecResultView::Interrupted(ActionView::Goto(i)) => (self.idle_at(i as int), go_on),
            ExecResultView::Interrupted(ActionView::Exec(c)) => match c {
                CommandView::Default(p) => (
                    RunnerModel { defaults: self.defaults.union_prefer_right(p), ..self }.idle_at(self.index),
                    go_on,
                ),
                CommandView::End => (self.exited(), ReactionView { cleanup: true, order: OrderView::Stop }),
                _ => (
                    self.begun(c),
                    ReactionView { cleanup: true, order: OrderView::Begin(c, self.defaults) },
                ),
            },
            ExecResultView::Interrupted(ActionView::Pause(clear)) => (
                RunnerModel {
                    state: RunnerState::Paused(remaining),
                    phase: Phase::Paused,
                    live: !clear,
                    ..self
                },
                ReactionView { cleanup: clear, order: OrderView::Await },
            ),
            ExecResultView::Interrupted(ActionView::Exit) => (
                self.exited(),
                ReactionView { cleanup: true, order: OrderView::Stop },
            ),
            _ => (self.idle_at(self.index + 1), go_on),
        }
    }

    /// Answering the one action that ends a pause: back to the same command.
    pub open spec fn resume_spec(self) -> (RunnerModel, ReactionView) {
        (
            RunnerModel { state: RunnerState::Running(self.info), ..self }.idle_at(self.index),
            ReactionView { cleanup: self.live, order: OrderView::Dispatch },
        )
    }
}

/// Some command at `i` or later is `end`.
pub open spec fn end_ahead(cmds: Seq<CommandView>, i: int) -> bool {
    exists|j: int| i <= j < cmds.len() && cmds[j] is End
}

/// How far the cursor at `i` is from an `end`: the commands left before the
/// wrap, plus a whole round where no `end` is left before it.
pub open spec fn distance(cmds: Seq<CommandView>, i: int) -> int {
    (if end_ahead(cmds, i) { 0 } else { cmds.len() as int }) + (cmds.len() - i)
}

impl RunnerModel {
    /// Falls with every step that the runner takes on its own.
    pub open spec fn measure(self) -> int {
        2 * distance(self.commands, normalized(self.index, self.len())) + if self.phase == Phase::Idle {
            1int
        } else {
            0int
        }
    }
}

proof fn lemma_advance(cmds: Seq<CommandView>, i: int)
    requires
        0 <= i < cmds.len(),
        end_ahead(cmds, 0),
        !(cmds[i] is End),
    ensures
        0 <= distance(cmds, normalized(i + 1, cmds.len() as int)) < distance(cmds, i),
{
    if i + 1 < cmds.len() {
        if end_ahead(cmds, i) {
            let j = choose|j: int| i <= j < cmds.len() && cmds[j] is End;
            assert(i + 1 <= j);
        } else {
            assert(!end_ahead(cmds, i + 1));
        }
    } else {
        assert(!end_ahead(cmds, i)) by {
            if end_ahead(cmds, i) {
                let j = choose|j: int| i <= j < cmds.len() && cmds[j] is End;
                assert(j == i);
            }
        }
    }
}

/// A playlist that holds an `end` ends: every dispatch that does not stop
/// the runner, and every execution that ends by its time, by an error of
/// the rendering program or by `Next`, lowers a measure that is never
/// negative; an `Exec` interrupt raises it by one at most, and `Exit` stops
/// the runner. So, but for finitely many `Exec` interrupts, a runner that
/// is not paused, sent back or sent elsewhere reaches `Exited`.
pub proof fn lemma_runner_reaches_end(m: RunnerModel, r: ExecResultView, remaining: Option<Span>)
    requires
        m.wf(),
        end_ahead(m.commands, 0),
    ensures
        m.measure() >= 0,
        m.phase == Phase::Idle ==> m.dispatch_spec().0.wf() && (m.dispatch_spec().0.state == RunnerState::Exited
            || m.dispatch_spec().0.measure() < m.measure()),
        m.phase == Phase::Executing ==> m.result_spec(r, remaining).0.wf(),
        m.phase == Phase::Executing && (r is Elapsed || r is Error || r == ExecResultView::Interrupted(
            ActionView::Next,
        )) ==> m.result_spec(r, remaining).0.measure() < m.measure(),
        m.phase == Phase::Executing && r is Interrupted && r->Interrupted_0 is Exec ==> (m.result_spec(
            r,
            remaining,
        ).0.state == RunnerState::Exited || m.result_spec(r, remaining).0.measure() <= m.measure() + 1),
        m.phase == Phase::Executing && r == ExecResultView::Interrupted(ActionView::Exit) ==> m.result_spec(
            r,
            remaining,
        ).0.state == RunnerState::Exited,
{
    let len = m.len();
    let i = normalized(m.index, len);
    assert(distance(m.commands, i) >= 0);
    if m.phase == Phase::Idle {
        if !(m.commands[i] is End) {
            lemma_advance(m.commands, i);
        }
    }
    if m.phase == Phase::Executing {
        if !(m.commands[i] is End) {
            lemma_advance(m.commands, i);
        }
    }
}

/// After `Goto(i)` to an index of the playlist, the next command read is the
/// one at `i`: it is executed where it needs an execution, and `end` there
/// stops the runner.
pub proof fn lemma_goto_reads_target(m: RunnerModel, i: usize, remaining: Option<Span>)
    requires
        m.wf(),
        m.phase == Phase::Executing,
        i < m.len(),
    ensures
        ({
            let m2 = m.result_spec(ExecResultView::Interrupted(ActionView::Goto(i)), remaining).0;
            &&& m2.wf()
            &&& m2.phase == Phase::Idle
            &&& normalized(m2.index, m2.len()) == i
            &&& (m.commands[i as int] is Wallpaper || m.commands[i as int] is Sleep) ==> m2.dispatch_spec().1
                == OrderView::Begin(m.commands[i as int], m.defaults)
            &&& m.commands[i as int] is End ==> m2.dispatch_spec().0.state == RunnerState::Exited
        }),
{
}

/// At most one execution is live: an execution is ordered to begin only when
/// none is live, or together with the cleanup of the one in flight; a pause
/// that clears leaves none live until the next action; and leaving a pause
/// cleans up what it kept.
pub proof fn lemma_one_execution_at_a_time(m: RunnerModel, r: ExecResultView, remaining: Option<Span>)
    requires
        m.wf(),
    ensures
        m.phase == Phase::Idle ==> !m.live && (m.dispatch_spec().1 is Begin ==> m.dispatch_spec().0.live),
        m.phase == Phase::Executing && m.result_spec(r, remaining).1.order is Begin ==> m.result_spec(
            r,
            remaining,
        ).1.cleanup,
        m.phase == Phase::Executing && r == ExecResultView::Interrupted(ActionView::Pause(true)) ==> !m.result_spec(
            r,
            remaining,
        ).0.live && m.result_spec(r, remaining).0.phase == Phase::Paused && m.result_spec(r, remaining).1.cleanup,
        m.phase == Phase::Paused ==> m.resume_spec().1.cleanup == m.live && !m.resume_spec().0.live,
{
}

/// The time that an execution of `duration` has left after `elapsed`; nothing
/// for an infinite one.
pub fn remaining(duration: CmdDuration, elapsed: Span) -> (r: Option<Span>)
    requires
        duration matches CmdDuration::Finite(d) ==> d.wf(),
        elapsed.wf(),
    ensures
        match duration {
            CmdDuration::Finite(d) => r == Some(span_minus(d, elapsed)),
            CmdDuration::Infinite => r is None,
        },
{
    match duration {
        CmdDuration::Finite(d) => Some(saturating_minus(d, elapsed)),
        CmdDuration::Infinite => None,
    }
}

/// A playlist being played.
pub struct Runner {
    index: usize,
    commands: Vec<Command>,
    defaults: Properties,
    state: RunnerState,
    info: ExecInfo,
    phase: Phase,
    live: bool,
}

pub open spec fn command_views(v: Seq<Command>) -> Seq<CommandView> {
    v.map_values(|c: Command| c@)
}

impl View for Runner {
    type V = RunnerModel;

    closed spec fn view(&self) -> RunnerModel {
        RunnerModel {
            index: self.index as int,
            commands: command_views(self.commands@),
            defaults: self.defaults.map(),
            state: self.state,
            info: self.info,
            phase: self.phase,
            live: self.live,
        }
    }
}

impl Runner {
    pub closed spec fn inv(&self) -> bool {
        self@.wf() && self.defaults.wf()
    }

    /// A runner at the start of `commands`; a playlist without commands is refused.
    pub fn new(commands: Vec<Command>) -> (r: Result<Runner, RunnerError>)
        ensures
            commands@.len() == 0 <==> r is Err,
            r matches Err(e) ==> e == RunnerError::InitFailed,
            r matches Ok(run) ==> run.inv() && run@.index == 0 && run@.commands == command_views(commands@)
                && run@.defaults == Map::<Seq<char>, Seq<char>>::empty() && run@.state == RunnerState::Ready
                && run@.phase == Phase::Idle,
    {
        if commands.len() == 0 {
            return Err(RunnerError::InitFailed);
        }
        Ok(Runner {
            index: 0,
            commands,
            defaults: Properties::new(),
            state: RunnerState::Ready,
            info: ExecInfo { duration: CmdDuration::Infinite },
            phase: Phase::Idle,
            live: false,
        })
    }

    pub fn index(&self) -> (r: usize)
        ensures
            r == self@.index,
    {
        self.index
    }

    pub fn state(&self) -> (r: RunnerState)
        ensures
            r == self@.state,
    {
        self.state
    }

    pub fn phase(&self) -> (r: Phase)
        ensures
            r == self@.phase,
    {
        self.phase
    }

    /// Whether an execution has begun that has not been cleaned up.
    pub fn live(&self) -> (r: bool)
        ensures
            r == self@.live,
    {
        self.live
    }

    pub fn exited(&self) -> (r: bool)
        ensures
            r == (self@.state == RunnerState::Exited),
    {
        match self.state {
            RunnerState::Exited => true,
            _ => false,
        }
    }

    pub fn len(&self) -> (r: usize)
        ensures
            r == self@.len(),
    {
        self.commands.len()
    }

    pub fn commands(&self) -> (r: &Vec<Command>)
        ensures
            command_views(r@) == self@.commands,
    {
        &self.commands
    }

    pub fn defaults(&self) -> (r: &Properties)
        ensures
            r.map() == self@.defaults,
    {
        &self.defaults
    }

    /// Reads the command under the cursor, wrapping the cursor to the start
    /// past the end: a `default` line is merged into the default properties
    /// and the cursor moves on; `end` stops the runner; any other command
    /// is to be executed.
    pub fn dispatch(&mut self) -> (o: Order)
        requires
            old(self).inv(),
            old(self)@.phase == Phase::Idle,
        ensures
            final(self).inv(),
            normalized(old(self)@.index, old(self)@.len()) < old(self)@.len(),
            (final(self)@, o@) == old(self)@.dispatch_spec(),
    {
        let ghost m = self@;
        if self.index >= self.commands.len() {
            self.index = 0;
        }
        let i = self.index;
        assert(self.commands@[i as int]@ == m.commands[i as int]);
        match &self.commands[i] {
            Command::Default(p) => {
                let p = p.duplicate();
                self.defaults.insert_all(&p);
                self.index = i + 1;
                Order::Dispatch
            },
            Command::End => {
                self.state = RunnerState::Exited;
                self.phase = Phase::Done;
                Order::Stop
            },
            Command::Wallpaper(_, d, _) => {
                let info = ExecInfo { duration: *d };
                let c = self.commands[i].duplicate();
                self.begin(info);
                Order::Begin(c, self.defaults.duplicate())
            },
            Command::Sleep(d) => {
                let info = ExecInfo { duration: *d };
                let c = self.commands[i].duplicate();
                self.begin(info);
                Order::Begin(c, self.defaults.duplicate())
            },
        }
    }

    fn begin(&mut self, info: ExecInfo)
        ensures
            final(self).index == old(self).index,
            final(self).commands == old(self).commands,
            final(self).defaults == old(self).defaults,
            final(self).state == RunnerState::Running(info),
            final(self).info == info,
            final(self).phase == Phase::Executing,
            final(self).live,
    {
        self.state = RunnerState::Running(info);
        self.info = info;
        self.phase = Phase::Executing;
        self.live = true;
    }

    fn go_idle(&mut self, index: usize)
        ensures
            final(self).index == index,
            final(self).commands == old(self).commands,
            final(self).defaults == old(self).defaults,
            final(self).state == old(self).state,
            final(self).info == old(self).info,
            final(self).phase == Phase::Idle,
            !final(self).live,
    {
        self.index = index;
        self.phase = Phase::Idle;
        self.live = false;
    }

    fn stop(&mut self)
        ensures
            final(self).index == old(self).index,
            final(self).commands == old(self).commands,
            final(self).defaults == old(self).defaults,
            final(self).info == old(self).info,
            final(self).state == RunnerState::Exited,
            final(self).phase == Phase::Done,
            !final(self).live,
    {
        self.state = RunnerState::Exited;
        self.phase = Phase::Done;
        self.live = false;
    }

    /// Answers the end of the execution in flight. `remaining` is the time
    /// that was left of it, kept where the answer is to pause.
    pub fn on_result(&mut self, result: ExecResult, remaining: Option<Span>) -> (r: Reaction)
        requires
            old(self).inv(),
            old(self)@.phase == Phase::Executing,
        ensures
            final(self).inv(),
            (final(self)@, r@) == old(self)@.result_spec(result@, remaining),
            result@ matches ExecResultView::Interrupted(ActionView::Exec(_)) ==> final(self)@.index
                == old(self)@.index,
            result@ == ExecResultView::Interrupted(ActionView::Pause(true)) ==> r.cleanup && !final(self)@.live
                && final(self)@.phase == Phase::Paused,
    {
        let ghost m = self@;
        match result {
            ExecResult::Interrupted(Action::Prev) => {
                let i = if self.index > 0 { self.index - 1 } else { 0 };
                self.go_idle(i);
                Reaction { cleanup: true, order: Order::Dispatch }
            },
            ExecResult::Interrupted(Action::Goto(i)) => {
                self.go_idle(i);
                Reaction { cleanup: true, order: Order::Dispatch }
            },
            ExecResult::Interrupted(Action::Exec(c)) => {
                match c {
                    Command::Default(p) => {
                        self.defaults.insert_all(&p);
                        let i = self.index;
                        self.go_idle(i);
                        Reaction { cleanup: true, order: Order::Dispatch }
                    },
                    Command::End => {
                        self.stop();
                        Reaction { cleanup: true, order: Order::Stop }
                    },
                    Command::Wallpaper(id, d, p) => {
                        self.begin(ExecInfo { duration: d });
                        Reaction {
                            cleanup: true,
                            order: Order::Begin(Command::Wallpaper(id, d, p), self.defaults.duplicate()),
                        }
                    },
                    Command::Sleep(d) => {
                        self.begin(ExecInfo { duration: d });
                        Reaction { cleanup: true, order: Order::Begin(Command::Sleep(d), self.defaults.duplicate()) }
                    },
                }
            },
            ExecResult::Interrupted(Action::Pause(clear)) => {
                self.state = RunnerState::Paused(remaining);
                self.phase = Phase::Paused;
                self.live = !clear;
                Reaction { cleanup: clear, order: Order::Await }
            },
            ExecResult::Interrupted(Action::Exit) => {
                self.stop();
                Reaction { cleanup: true, order: Order::Stop }
            },
            _ => {
                let i = self.index + 1;
                self.go_idle(i);
                Reaction { cleanup: true, order: Order::Dispatch }
            },
        }
    }

    /// Answers the one action that ends a pause, which is consumed without
    /// further effect: the runner goes back to the command it paused on.
    pub fn resume(&mut self) -> (r: Reaction)
        requires
            old(self).inv(),
            old(self)@.phase == Phase::Paused,
        ensures
            final(self).inv(),
            (final(self)@, r@) == old(self)@.resume_spec(),
    {
        let live = self.live;
        self.state = RunnerState::Running(self.info);
        let i = self.index;
        self.go_idle(i);
        Reaction { cleanup: live, order: Order::Dispatch }
    }
}

} // verus!
