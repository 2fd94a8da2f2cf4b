//! What holds of a daemon over whole runs: the events that a sequence of
//! commands and reports makes it publish, and the shapes these can take.

use vstd::prelude::*;

use crate::action::Event;
use crate::daemons::DaemonKind;
use crate::errors::ErrorView;
use crate::socket::{ReqAction, ResponseView};
use crate::supervisor::{DaemonView, Directive, Phase, ReportView};

verus! {

/// One thing that reaches a daemon: a command from the control interface or
/// a report from the runtime.
pub ghost enum Input {
    Command(ReqAction),
    Report(ReportView),
}

impl Input {
    pub open spec fn is_start(self) -> bool {
        self == Input::Command(ReqAction::Start)
    }

    /// A status request or a report: nothing that steers the daemon.
    pub open spec fn is_passive(self) -> bool {
        self is Report || self == Input::Command(ReqAction::Status)
    }

    pub open spec fn is_spawn_failure(self) -> bool {
        self is Report && self->Report_0 is SpawnFailed
    }
}

impl DaemonView {
    /// The daemon after one input.
    pub open spec fn step(self, input: Input) -> DaemonView {
        match input {
            Input::Command(action) => self.after_command(action),
            Input::Report(report) => self.after_report(report),
        }
    }

    /// The events that one input makes the daemon publish. A command
    /// publishes none.
    pub open spec fn emitted(self, input: Input) -> Seq<Event> {
        match input {
            Input::Command(action) => Seq::empty(),
            Input::Report(report) => self.events(report),
        }
    }

    /// The daemon after a sequence of inputs.
    pub open spec fn run(self, inputs: Seq<Input>) -> DaemonView
        decreases inputs.len(),
    {
        if inputs.len() == 0 {
            self
        } else {
            self.step(inputs[0]).run(inputs.drop_first())
        }
    }

    /// All that a sequence of inputs makes the daemon publish, in order.
    pub open spec fn trace(self, inputs: Seq<Input>) -> Seq<Event>
        decreases inputs.len(),
    {
        if inputs.len() == 0 {
            Seq::empty()
        } else {
            self.emitted(inputs[0]) + self.step(inputs[0]).trace(inputs.drop_first())
        }
    }

    /// What a run-once daemon that is left alone can still publish: nothing
    /// once it is through; its exit and completion while the child runs; and
    /// while its launch is due, the whole run, or none of it yet, or only the
    /// start, or the failure to launch.
    pub open spec fn oneshot_shape(self, t: Seq<Event>) -> bool {
        let started = Event::Started { name: self.name() };
        let completed = Event::Completed { name: self.name() };
        let ends = t.len() == 2 && t[0] is Exited && t[0]->Exited_name == self.name() && t[1] == completed;
        if self.idle() {
            t.len() == 0
        } else if self.phase == Phase::Running {
            t.len() == 0 || ends
        } else {
            ||| t.len() == 0
            ||| t == seq![started]
            ||| (t.len() == 3 && t[0] == started && t[1] is Exited && t[1]->Exited_name == self.name() && t[2]
                == completed)
            ||| (ends && !t[0]->Exited_success)
        }
    }
}

/// Starts and exits take turns: a start comes only while no child runs, an
/// exit only while one does. Other events do not count.
pub open spec fn alternates(t: Seq<Event>, running: bool) -> bool
    decreases t.len(),
{
    if t.len() == 0 {
        true
    } else {
        match t[0] {
            Event::Started { .. } => !running && alternates(t.drop_first(), true),
            Event::Exited { .. } => running && alternates(t.drop_first(), false),
            _ => alternates(t.drop_first(), running),
        }
    }
}

/// No start follows a start without an exit between them. An exit may come
/// without a start before it: a launch that failed.
pub open spec fn exits_between_starts(t: Seq<Event>, running: bool) -> bool
    decreases t.len(),
{
    if t.len() == 0 {
        true
    } else {
        match t[0] {
            Event::Started { .. } => !running && exits_between_starts(t.drop_first(), true),
            Event::Exited { .. } => exits_between_starts(t.drop_first(), false),
            _ => exits_between_starts(t.drop_first(), running),
        }
    }
}

/// Whatever reaches a daemon, it stays well-formed.
pub proof fn step_keeps_wf(d: DaemonView, input: Input)
    requires
        d.wf(),
    ensures
        d.step(input).wf(),
{
}

/// Whatever reaches a daemon, it stays well-formed, and its definition and
/// the pacing of its restarts stay what they were.
pub proof fn run_keeps_definition(d: DaemonView, inputs: Seq<Input>)
    requires
        d.wf(),
    ensures
        d.run(inputs).wf(),
        d.run(inputs).config == d.config,
        d.run(inputs).policy == d.policy,
    decreases inputs.len(),
{
    if inputs.len() > 0 {
        run_keeps_definition(d.step(inputs[0]), inputs.drop_first());
    }
}

/// A status request changes nothing and publishes nothing; its answer is the
/// phase.
pub proof fn status_changes_nothing(d: DaemonView)
    ensures
        d.step(Input::Command(ReqAction::Status)) == d,
        d.emitted(Input::Command(ReqAction::Status)) == Seq::<Event>::empty(),
        d.reply(ReqAction::Status) == ResponseView::Success(Some(d.phase)),
        d.bidding(ReqAction::Status) == Directive::Continue,
{
}

/// Status requests, however many, leave the daemon as it was and publish
/// nothing, so each of them gets the same answer.
pub proof fn repeated_status_changes_nothing(d: DaemonView, inputs: Seq<Input>)
    requires
        forall|i: int| 0 <= i < inputs.len() ==> inputs[i] == Input::Command(ReqAction::Status),
    ensures
        d.run(inputs) == d,
        d.trace(inputs) == Seq::<Event>::empty(),
    decreases inputs.len(),
{
    if inputs.len() > 0 {
        assert(inputs[0] == Input::Command(ReqAction::Status));
        let rest = inputs.drop_first();
        assert forall|i: int| 0 <= i < rest.len() implies rest[i] == Input::Command(ReqAction::Status) by {
            assert(rest[i] == inputs[i + 1]);
        }
        repeated_status_changes_nothing(d, rest);
        assert(d.trace(inputs) =~= Seq::<Event>::empty());
    }
}

/// A daemon that is stopped or completed stays so, and publishes nothing,
/// until a start is asked of it.
pub proof fn idle_until_started(d: DaemonView, inputs: Seq<Input>)
    requires
        d.wf(),
        d.idle(),
        forall|i: int| 0 <= i < inputs.len() ==> !inputs[i].is_start(),
    ensures
        d.run(inputs) == d,
        d.trace(inputs) == Seq::<Event>::empty(),
    decreases inputs.len(),
{
    if inputs.len() > 0 {
        assert(!inputs[0].is_start());
        let rest = inputs.drop_first();
        assert forall|i: int| 0 <= i < rest.len() implies !rest[i].is_start() by {
            assert(rest[i] == inputs[i + 1]);
        }
        assert(d.step(inputs[0]) == d);
        idle_until_started(d, rest);
        assert(d.trace(inputs) =~= Seq::<Event>::empty());
    }
}

/// A run-once daemon whose launch is due publishes its start, then its exit,
/// then its completion, and is through: no launch follows.
pub proof fn oneshot_runs_once(d: DaemonView, child: u32, success: bool, detail: Seq<char>, uptime_ms: u64)
    requires
        d.wf(),
        d.launching(),
        d.config.kind == DaemonKind::Oneshot,
    ensures
        ({
            let spawned = Input::Report(ReportView::Spawned { child });
            let exited = Input::Report(ReportView::Exited { success, detail, uptime_ms });
            &&& d.trace(seq![spawned, exited]) == seq![
                Event::Started { name: d.name() },
                Event::Exited { name: d.name(), success, detail },
                Event::Completed { name: d.name() },
            ]
            &&& d.run(seq![spawned, exited]).phase == Phase::Completed
            &&& d.step(spawned).next(ReportView::Exited { success, detail, uptime_ms }) == Directive::Continue
        }),
{
    let spawned = Input::Report(ReportView::Spawned { child });
    let exited = Input::Report(ReportView::Exited { success, detail, uptime_ms });
    let inputs = seq![spawned, exited];
    let d1 = d.step(spawned);
    let d2 = d1.step(exited);
    assert(inputs.drop_first() =~= seq![exited]);
    assert(seq![exited].drop_first() =~= Seq::<Input>::empty());
    assert(d2.trace(Seq::<Input>::empty()) == Seq::<Event>::empty());
    assert(d1.trace(seq![exited]) =~= d1.emitted(exited));
    assert(d.trace(inputs) =~= d.emitted(spawned) + d1.emitted(exited));
    assert(d1.run(seq![exited]) == d2.run(Seq::<Input>::empty()));
    assert(d.run(inputs) == d2);
}

/// Whatever reports come in, and however often its status is asked, a
/// run-once daemon that is left alone publishes at most one start, one exit
/// and one completion, in that order, and the completion with the exit.
pub proof fn oneshot_runs_at_most_once(d: DaemonView, inputs: Seq<Input>)
    requires
        d.wf(),
        !d.halting,
        d.config.kind == DaemonKind::Oneshot,
        forall|i: int| 0 <= i < inputs.len() ==> inputs[i].is_passive(),
    ensures
        d.oneshot_shape(d.trace(inputs)),
    decreases inputs.len(),
{
    if inputs.len() > 0 {
        assert(inputs[0].is_passive());
        let rest = inputs.drop_first();
        assert forall|i: int| 0 <= i < rest.len() implies rest[i].is_passive() by {
            assert(rest[i] == inputs[i + 1]);
        }
        let d1 = d.step(inputs[0]);
        let a = d.emitted(inputs[0]);
        let t = d1.trace(rest);
        oneshot_runs_at_most_once(d1, rest);
        assert(d1.name() == d.name());
        if a.len() == 0 {
            assert(d1 == d);
            assert(a + t =~= t);
        } else if a.len() == 1 {
            assert(d1.phase == Phase::Running);
            if t.len() == 0 {
                assert(a + t =~= a);
                assert(a =~= seq![Event::Started { name: d.name() }]);
            } else {
                assert((a + t).len() == 3);
                assert((a + t)[0] == a[0]);
                assert((a + t)[1] == t[0]);
                assert((a + t)[2] == t[1]);
            }
        } else {
            assert(d1.phase == Phase::Completed);
            assert(a + t =~= a);
        }
    }
}

/// As long as every launch succeeds, the starts and exits that a daemon
/// publishes take turns, whatever reaches it: between two starts lies the
/// exit of the first.
pub proof fn starts_and_exits_alternate(d: DaemonView, inputs: Seq<Input>)
    requires
        d.wf(),
        forall|i: int| 0 <= i < inputs.len() ==> !inputs[i].is_spawn_failure(),
    ensures
        alternates(d.trace(inputs), d.phase == Phase::Running),
    decreases inputs.len(),
{
    if inputs.len() > 0 {
        assert(!inputs[0].is_spawn_failure());
        let rest = inputs.drop_first();
        assert forall|i: int| 0 <= i < rest.len() implies !rest[i].is_spawn_failure() by {
            assert(rest[i] == inputs[i + 1]);
        }
        let d1 = d.step(inputs[0]);
        let a = d.emitted(inputs[0]);
        let t = d1.trace(rest);
        starts_and_exits_alternate(d1, rest);
        if a.len() == 0 {
            assert(a + t =~= t);
        } else if a.len() == 1 {
            assert((a + t)[0] == a[0]);
            assert((a + t).drop_first() =~= t);
        } else {
            let u = (a + t).drop_first();
            assert((a + t)[0] == a[0]);
            assert(u[0] == a[1]);
            assert(u.drop_first() =~= t);
            assert(alternates(u, false));
        }
    }
}

/// Whatever reaches a daemon, failed launches among it, no start that it
/// publishes follows another without an exit between the two.
pub proof fn every_start_follows_an_exit(d: DaemonView, inputs: Seq<Input>)
    requires
        d.wf(),
    ensures
        exits_between_starts(d.trace(inputs), d.phase == Phase::Running),
    decreases inputs.len(),
{
    if inputs.len() > 0 {
        let rest = inputs.drop_first();
        let d1 = d.step(inputs[0]);
        let a = d.emitted(inputs[0]);
        let t = d1.trace(rest);
        every_start_follows_an_exit(d1, rest);
        if a.len() == 0 {
            assert(a + t =~= t);
        } else if a.len() == 1 {
            assert((a + t)[0] == a[0]);
            assert((a + t).drop_first() =~= t);
        } else {
            let u = (a + t).drop_first();
            assert((a + t)[0] == a[0]);
            assert(u[0] == a[1]);
            assert(u.drop_first() =~= t);
            assert(exits_between_starts(u, false));
        }
    }
}

/// A kept-alive daemon whose child ends without a stop being asked is
/// launched again, after the pause that its run of failures calls for.
pub proof fn persistent_is_restarted(
    d: DaemonView,
    success: bool,
    detail: Seq<char>,
    uptime_ms: u64,
    child: u32,
)
    requires
        d.wf(),
        d.phase == Phase::Running,
        !d.halting,
        d.persistent(),
    ensures
        ({
            let exited = ReportView::Exited { success, detail, uptime_ms };
            let d1 = d.after_report(exited);
            &&& d.events(exited) == seq![Event::Exited { name: d.name(), success, detail }]
            &&& d1.phase == Phase::Restarting
            &&& d.next(exited) == Directive::Spawn {
                after_ms: d.policy.pause(d.level(uptime_ms) as nat) as u64,
            }
            &&& d1.events(ReportView::Spawned { child }) == seq![Event::Started { name: d.name() }]
            &&& d1.after_report(ReportView::Spawned { child }).phase == Phase::Running
        }),
{
}

/// A stop asked of a running daemon is accepted and passed on to the child;
/// when the child then ends, its exit is the last that the daemon publishes:
/// it is stopped, no launch is asked for, and nothing follows until a start
/// is asked of it.
pub proof fn stop_suppresses_restart(d: DaemonView, success: bool, detail: Seq<char>, uptime_ms: u64)
    requires
        d.wf(),
        d.phase == Phase::Running,
    ensures
        ({
            let exited = ReportView::Exited { success, detail, uptime_ms };
            let d1 = d.after_command(ReqAction::Stop);
            let d2 = d1.after_report(exited);
            &&& d.reply(ReqAction::Stop) == ResponseView::Success(None)
            &&& d.bidding(ReqAction::Stop) == Directive::Terminate
            &&& d1.events(exited) == seq![Event::Exited { name: d.name(), success, detail }]
            &&& d1.next(exited) == Directive::Continue
            &&& d2.phase == Phase::Stopped
            &&& forall|inputs: Seq<Input>|
                (forall|i: int| 0 <= i < inputs.len() ==> !(#[trigger] inputs[i]).is_start()) ==> #[trigger] d2.trace(
                    inputs,
                ) == Seq::<Event>::empty()
        }),
{
    let exited = ReportView::Exited { success, detail, uptime_ms };
    let d2 = d.after_command(ReqAction::Stop).after_report(exited);
    assert forall|inputs: Seq<Input>|
        (forall|i: int| 0 <= i < inputs.len() ==> !(#[trigger] inputs[i]).is_start()) implies #[trigger] d2.trace(
        inputs,
    ) == Seq::<Event>::empty() by {
        idle_until_started(d2, inputs);
    }
}

/// A kill asked of a daemon without a running child is refused and changes
/// nothing. A start asked of it then is accepted, a launch is due, and the
/// launch, once it succeeds, is published as a start.
pub proof fn kill_then_start(d: DaemonView, child: u32)
    requires
        d.wf(),
        d.phase != Phase::Running,
    ensures
        ({
            let d1 = d.after_command(ReqAction::Kill);
            let d2 = d1.after_command(ReqAction::Start);
            &&& d.reply(ReqAction::Kill) == ResponseView::Failure(ErrorView::DaemonNotRunning(d.name()))
            &&& d.bidding(ReqAction::Kill) == Directive::Continue
            &&& d1 == d
            &&& d1.reply(ReqAction::Start) == ResponseView::Success(None)
            &&& d2.launching()
            &&& d2.events(ReportView::Spawned { child }) == seq![Event::Started { name: d.name() }]
            &&& d2.after_report(ReportView::Spawned { child }).phase == Phase::Running
        }),
{
}

} // verus!
