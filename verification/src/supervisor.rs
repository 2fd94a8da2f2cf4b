//! The lifecycle of one supervised process, as a state machine. The daemon
//! decides; a runtime around it launches the child, waits for it, signals it,
//! and reports back what happened.

use vstd::prelude::*;

use crate::action::{Action, Event};
use crate::backoff::RestartPolicy;
use crate::daemons::{ConfigView, DaemonConfig, DaemonKind};
use crate::errors::{Error, ErrorView};
use crate::socket::{ReqAction, Response, ResponseView};
use crate::text::owned;

verus! {

/// Where a daemon stands in its lifecycle.
#[derive(Debug, Copy, Clone, PartialEq, Eq, Structural)]
pub enum Phase {
    /// A first launch is due; there is no child yet.
    NotStarted,
    /// The child is running.
    Running,
    /// The child of a kept-alive daemon has ended, or could not be launched,
    /// and a new launch is due once the pause has passed.
    Restarting,
    /// The child was stopped or killed on request.
    Stopped,
    /// The run-once child has ended.
    Completed,
}

impl Phase {
    /// The word that names the phase in the detail of a response.
    pub open spec fn word(self) -> Seq<char> {
        match self {
            Phase::NotStarted => "not started"@,
            Phase::Running => "running"@,
            Phase::Restarting => "restarting"@,
            Phase::Stopped => "stopped"@,
            Phase::Completed => "completed"@,
        }
    }

    /// The word that names the phase in the detail of a response.
    pub fn name(&self) -> (r: String)
        ensures
            r@ == self.word(),
    {
        match self {
            Phase::NotStarted => owned("not started"),
            Phase::Running => owned("running"),
            Phase::Restarting => owned("restarting"),
            Phase::Stopped => owned("stopped"),
            Phase::Completed => owned("completed"),
        }
    }
}

/// What the runtime is to do for a daemon after a step.
#[derive(Debug, Copy, Clone, PartialEq, Eq, Structural)]
pub enum Directive {
    /// Nothing new: go on as the phase says.
    Continue,
    /// Launch the child once the pause has passed, and report how it went.
    Spawn { after_ms: u64 },
    /// Ask the child to end.
    Terminate,
    /// End the child by force.
    Kill,
}

/// What the runtime reports to a daemon.
#[derive(Debug, PartialEq, Eq)]
pub enum Report {
    /// The child was launched; `child` is the handle the system gave it.
    Spawned { child: u32 },
    /// The child could not be launched.
    SpawnFailed { detail: String },
    /// The child has ended. `success` holds only for an exit with status 0;
    /// `uptime_ms` is how long it ran.
    Exited { success: bool, detail: String, uptime_ms: u64 },
}

pub ghost enum ReportView {
    Spawned { child: u32 },
    SpawnFailed { detail: Seq<char> },
    Exited { success: bool, detail: Seq<char>, uptime_ms: u64 },
}

impl View for Report {
    type V = ReportView;

    open spec fn view(&self) -> ReportView {
        match self {
            Report::Spawned { child } => ReportView::Spawned { child: *child },
            Report::SpawnFailed { detail } => ReportView::SpawnFailed { detail: detail@ },
            Report::Exited { success, detail, uptime_ms } => ReportView::Exited {
                success: *success,
                detail: detail@,
                uptime_ms: *uptime_ms,
            },
        }
    }
}

/// What a report leads to: the events to publish, in order, and what the
/// runtime is to do next.
#[derive(Debug, PartialEq, Eq)]
pub struct Step {
    pub events: Vec<Action>,
    pub directive: Directive,
}

/// What a command leads to: the response for the one who asked, and what the
/// runtime is to do next.
#[derive(Debug, PartialEq, Eq)]
pub struct Reply {
    pub response: Response,
    pub directive: Directive,
}

/// The supervisor of one process: its definition, the phase it is in, and the
/// handle of the child while one is running.
#[derive(Debug)]
pub struct Daemon {
    config: DaemonConfig,
    policy: RestartPolicy,
    phase: Phase,
    child: Option<u32>,
    halting: bool,
    failures: u32,
}

pub ghost struct DaemonView {
    pub config: ConfigView,
    pub policy: RestartPolicy,
    pub phase: Phase,
    /// The handle of the running child.
    pub child: Option<u32>,
    /// A stop or kill was asked of the running child: no restart follows.
    pub halting: bool,
    /// How many runs in a row were short, spawn failures among them.
    pub failures: u32,
}

/// One more, as far as the counter goes.
pub open spec fn bumped(count: u32) -> u32 {
    if count == u32::MAX {
        count
    } else {
        (count + 1) as u32
    }
}

impl DaemonView {
    /// A child is held exactly while running, and only a running child can
    /// be on its way out.
    pub open spec fn wf(self) -> bool {
        &&& self.child is Some <==> self.phase == Phase::Running
        &&& self.halting ==> self.phase == Phase::Running
    }

    /// The name under which the daemon reports and is addressed.
    pub open spec fn name(self) -> Seq<char> {
        self.config.desc
    }

    /// The daemon is kept alive: launched again whenever its child is gone.
    pub open spec fn persistent(self) -> bool {
        self.config.kind == DaemonKind::Daemon
    }

    /// A launch is due.
    pub open spec fn launching(self) -> bool {
        self.phase == Phase::NotStarted || self.phase == Phase::Restarting
    }

    /// Neither a child nor a launch: only a start command moves the daemon.
    pub open spec fn idle(self) -> bool {
        self.phase == Phase::Stopped || self.phase == Phase::Completed
    }

    /// The daemon as first made for a definition.
    pub open spec fn fresh(config: ConfigView, policy: RestartPolicy) -> DaemonView {
        DaemonView { config, policy, phase: Phase::NotStarted, child: None, halting: false, failures: 0 }
    }

    /// The response to a command.
    pub open spec fn reply(self, action: ReqAction) -> ResponseView {
        match action {
            ReqAction::Status => ResponseView::Success(Some(self.phase)),
            ReqAction::Start => ResponseView::Success(None),
            ReqAction::Stop | ReqAction::Kill => if self.phase == Phase::Running {
                ResponseView::Success(None)
            } else {
                ResponseView::Failure(ErrorView::DaemonNotRunning(self.name()))
            },
        }
    }

    /// What the runtime is to do on a command.
    pub open spec fn bidding(self, action: ReqAction) -> Directive {
        match action {
            ReqAction::Status => Directive::Continue,
            ReqAction::Start => if self.idle() {
                Directive::Spawn { after_ms: 0 }
            } else {
                Directive::Continue
            },
            ReqAction::Stop => if self.phase == Phase::Running {
                Directive::Terminate
            } else {
                Directive::Continue
            },
            ReqAction::Kill => if self.phase == Phase::Running {
                Directive::Kill
            } else {
                Directive::Continue
            },
        }
    }

    /// The daemon after a command.
    pub open spec fn after_command(self, action: ReqAction) -> DaemonView {
        match action {
            ReqAction::Status => self,
            ReqAction::Start => if self.idle() {
                DaemonView { phase: Phase::NotStarted, failures: 0, ..self }
            } else {
                self
            },
            ReqAction::Stop | ReqAction::Kill => if self.phase == Phase::Running {
                DaemonView { halting: true, ..self }
            } else {
                self
            },
        }
    }

    /// The number of short runs in a row that the pause after a run of
    /// `uptime_ms` goes by: a run that lasted starts the count over.
    pub open spec fn level(self, uptime_ms: u64) -> u32 {
        if uptime_ms >= self.policy.min_uptime_ms {
            0
        } else {
            self.failures
        }
    }

    /// The daemon after a report. A report that does not fit the phase
    /// changes nothing.
    pub open spec fn after_report(self, report: ReportView) -> DaemonView {
        match report {
            ReportView::Spawned { child } => if self.launching() {
                DaemonView { phase: Phase::Running, child: Some(child), ..self }
            } else {
                self
            },
            ReportView::SpawnFailed { detail } => if !self.launching() {
                self
            } else if self.persistent() {
                DaemonView { phase: Phase::Restarting, failures: bumped(self.failures), ..self }
            } else {
                DaemonView { phase: Phase::Completed, ..self }
            },
            ReportView::Exited { success, detail, uptime_ms } => if self.phase != Phase::Running {
                self
            } else if self.halting {
                DaemonView { phase: Phase::Stopped, child: None, halting: false, ..self }
            } else if self.persistent() {
                DaemonView {
                    phase: Phase::Restarting,
                    child: None,
                    failures: bumped(self.level(uptime_ms)),
                    ..self
                }
            } else {
                DaemonView { phase: Phase::Completed, child: None, ..self }
            },
        }
    }

    /// The events that a report makes the daemon publish, in order.
    pub open spec fn events(self, report: ReportView) -> Seq<Event> {
        match report {
            ReportView::Spawned { child } => if self.launching() {
                seq![Event::Started { name: self.name() }]
            } else {
                Seq::empty()
            },
            ReportView::SpawnFailed { detail } => if !self.launching() {
                Seq::empty()
            } else if self.persistent() {
                seq![Event::Exited { name: self.name(), success: false, detail }]
            } else {
                seq![
                    Event::Exited { name: self.name(), success: false, detail },
                    Event::Completed { name: self.name() },
                ]
            },
            ReportView::Exited { success, detail, uptime_ms } => if self.phase != Phase::Running {
                Seq::empty()
            } else if self.halting || self.persistent() {
                seq![Event::Exited { name: self.name(), success, detail }]
            } else {
                seq![
                    Event::Exited { name: self.name(), success, detail },
                    Event::Completed { name: self.name() },
                ]
            },
        }
    }

    /// What the runtime is to do on a report: launch again, after the pause,
    /// where a kept-alive child is gone and no stop was asked.
    pub open spec fn next(self, report: ReportView) -> Directive {
        match report {
            ReportView::Spawned { child } => Directive::Continue,
            ReportView::SpawnFailed { detail } => if self.launching() && self.persistent() {
                Directive::Spawn { after_ms: self.policy.pause(self.failures as nat) as u64 }
            } else {
                Directive::Continue
            },
            ReportView::Exited { success, detail, uptime_ms } => if self.phase == Phase::Running
                && !self.halting && self.persistent() {
                Directive::Spawn { after_ms: self.policy.pause(self.level(uptime_ms) as nat) as u64 }
            } else {
                Directive::Continue
            },
        }
    }
}

impl View for Daemon {
    type V = DaemonView;

    closed spec fn view(&self) -> DaemonView {
        DaemonView {
            config: self.config@,
            policy: self.policy,
            phase: self.phase,
            child: self.child,
            halting: self.halting,
            failures: self.failures,
        }
    }
}

impl DeepView for Daemon {
    type V = DaemonView;

    open spec fn deep_view(&self) -> DaemonView {
        self@
    }
}

fn bump(count: u32) -> (r: u32)
    ensures
        r == bumped(count),
{
    if count == u32::MAX {
        count
    } else {
        count + 1
    }
}

impl Daemon {
    /// The supervisor for a definition, with the standard pacing of restarts.
    /// Its first launch is due: the runtime launches the child at once and
    /// reports how that went.
    pub fn new(config: DaemonConfig) -> (r: Daemon)
        ensures
            r@ == DaemonView::fresh(config@, RestartPolicy::usual()),
            r@.wf(),
    {
        Daemon::with_policy(config, RestartPolicy::standard())
    }

    /// The supervisor for a definition, with a pacing of restarts of one's
    /// own.
    pub fn with_policy(config: DaemonConfig, policy: RestartPolicy) -> (r: Daemon)
        ensures
            r@ == DaemonView::fresh(config@, policy),
            r@.wf(),
    {
        Daemon { config, policy, phase: Phase::NotStarted, child: None, halting: false, failures: 0 }
    }

    pub fn is_oneshot(&self) -> (r: bool)
        ensures
            r == (self@.config.kind == DaemonKind::Oneshot),
    {
        self.config.is_oneshot()
    }

    /// The path of the executable.
    pub fn name(&self) -> (r: String)
        ensures
            r@ == self@.config.command,
    {
        self.config.command.clone()
    }

    /// The description, under which the daemon reports and is addressed.
    pub fn desc(&self) -> (r: &str)
        ensures
            r@ == self@.name(),
    {
        self.config.desc.as_str()
    }

    pub fn config(&self) -> (r: &DaemonConfig)
        ensures
            r@ == self@.config,
    {
        &self.config
    }

    pub fn phase(&self) -> (r: Phase)
        ensures
            r == self@.phase,
    {
        self.phase
    }

    /// The handle of the running child.
    pub fn child(&self) -> (r: Option<u32>)
        ensures
            r == self@.child,
    {
        self.child
    }

    /// The pacing of restarts.
    pub fn policy(&self) -> (r: RestartPolicy)
        ensures
            r == self@.policy,
    {
        self.policy
    }

    /// Answers a status request. Nothing changes.
    pub fn status(&self) -> (r: Response)
        ensures
            r@ == self@.reply(ReqAction::Status),
    {
        Response::Success(Some(self.phase))
    }

    /// Asks for a launch. A daemon that is stopped or completed begins anew;
    /// one whose child is running, or whose launch is already due, is left as
    /// it is.
    pub fn start(&mut self) -> (r: Reply)
        requires
            old(self)@.wf(),
        ensures
            final(self)@.wf(),
            final(self)@ == old(self)@.after_command(ReqAction::Start),
            r.response@ == old(self)@.reply(ReqAction::Start),
            r.directive == old(self)@.bidding(ReqAction::Start),
    {
        self.command(ReqAction::Start)
    }

    /// Carries out a command and answers it. A stop or kill is refused
    /// unless the child is running; once accepted, no restart follows the
    /// child's end.
    pub fn command(&mut self, action: ReqAction) -> (r: Reply)
        requires
            old(self)@.wf(),
        ensures
            final(self)@.wf(),
            final(self)@ == old(self)@.after_command(action),
            r.response@ == old(self)@.reply(action),
            r.directive == old(self)@.bidding(action),
    {
        match action {
            ReqAction::Status => Reply { response: self.status(), directive: Directive::Continue },
            ReqAction::Start => {
                if self.phase == Phase::Stopped || self.phase == Phase::Completed {
                    self.phase = Phase::NotStarted;
                    self.failures = 0;
                    Reply { response: Response::Success(None), directive: Directive::Spawn { after_ms: 0 } }
                } else {
                    Reply { response: Response::Success(None), directive: Directive::Continue }
                }
            },
            ReqAction::Stop | ReqAction::Kill => {
                if self.phase == Phase::Running {
                    self.halting = true;
                    let directive = match action {
                        ReqAction::Stop => Directive::Terminate,
                        _ => Directive::Kill,
                    };
                    Reply { response: Response::Success(None), directive }
                } else {
                    Reply {
                        response: Response::Failure(Error::DaemonNotRunning(self.config.desc.clone())),
                        directive: Directive::Continue,
                    }
                }
            },
        }
    }

    /// Takes a report of the runtime and says what follows from it.
    pub fn observe(&mut self, report: Report) -> (r: Step)
        requires
            old(self)@.wf(),
        ensures
            final(self)@.wf(),
            final(self)@ == old(self)@.after_report(report@),
            r.events.deep_view() == old(self)@.events(report@),
            r.directive == old(self)@.next(report@),
    {
        let mut events: Vec<Action> = Vec::new();
        let mut directive = Directive::Continue;
        let launching = self.phase == Phase::NotStarted || self.phase == Phase::Restarting;
        let persistent = self.config.is_daemon();
        match report {
            Report::Spawned { child } => {
                if launching {
                    self.phase = Phase::Running;
                    self.child = Some(child);
                    events.push(Action::Started { name: self.config.desc.clone() });
                }
            },
            Report::SpawnFailed { detail } => {
                if launching {
                    events.push(Action::Exited { name: self.config.desc.clone(), success: false, detail });
                    if persistent {
                        directive = Directive::Spawn { after_ms: self.policy.delay(self.failures) };
                        self.phase = Phase::Restarting;
                        self.failures = bump(self.failures);
                    } else {
                        self.phase = Phase::Completed;
                        events.push(Action::Completed { name: self.config.desc.clone() });
                    }
                }
            },
            Report::Exited { success, detail, uptime_ms } => {
                if self.phase == Phase::Running {
                    events.push(Action::Exited { name: self.config.desc.clone(), success, detail });
                    self.child = None;
                    if self.halting {
                        self.halting = false;
                        self.phase = Phase::Stopped;
                    } else if persistent {
                        let level = if uptime_ms >= self.policy.min_uptime_ms {
                            0
                        } else {
                            self.failures
                        };
                        directive = Directive::Spawn { after_ms: self.policy.delay(level) };
                        self.phase = Phase::Restarting;
                        self.failures = bump(level);
                    } else {
                        self.phase = Phase::Completed;
                        events.push(Action::Completed { name: self.config.desc.clone() });
                    }
                }
            },
        }
        assert(events.deep_view() =~= old(self)@.events(report@));
        Step { events, directive }
    }
}

/// Makes the supervisors for the loaded set, one for each definition and in
/// the same order. The launch of every one of them is due at once: the run
/// group of a definition takes no part in when its daemon is launched.
pub fn spawner(configs: Vec<DaemonConfig>) -> (r: Vec<Daemon>)
    ensures
        r.len() == configs.len(),
        forall|i: int|
            0 <= i < r.len() ==> (#[trigger] r.deep_view()[i]) == DaemonView::fresh(
                configs.deep_view()[i],
                RestartPolicy::usual(),
            ),
        forall|i: int| 0 <= i < r.len() ==> (#[trigger] r.deep_view()[i]).wf(),
{
    let ghost all = configs@;
    let policy = RestartPolicy::standard();
    let mut daemons: Vec<Daemon> = Vec::new();
    for config in it: configs.into_iter()
        invariant
            it.seq() == all,
            policy == RestartPolicy::usual(),
            daemons.len() == it.index(),
            forall|i: int|
                0 <= i < daemons.len() ==> (#[trigger] daemons.deep_view()[i]) == DaemonView::fresh(
                    all[i]@,
                    policy,
                ),
    {
        let ghost done = daemons.deep_view();
        daemons.push(Daemon::with_policy(config, policy));
        assert forall|i: int| 0 <= i < daemons.len() - 1 implies (#[trigger] daemons.deep_view()[i])
            == done[i] by {}
    }
    daemons
}

} // verus!
