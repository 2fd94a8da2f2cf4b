use runbun::action::Action;
use runbun::backoff::RestartPolicy;
use runbun::daemons::{load_config, DaemonConfig};
use runbun::errors::Error;
use runbun::socket::{ReqAction, Response};
use runbun::daemons::Daemon;
use runbun::supervisor::{spawner, Directive, Phase, Report, Step};

fn config(desc: &str, command: &str, kind: &str) -> DaemonConfig {
    load_config(&format!(
        "desc = \"{}\"\ncommand = \"{}\"\nargs = []\nenv = []\nrun_group = 0\nkind = \"{}\"\n",
        desc, command, kind
    ))
    .unwrap()
}

fn started(name: &str) -> Action {
    Action::Started { name: name.to_string() }
}

fn exited(name: &str, success: bool, detail: &str) -> Action {
    Action::Exited { name: name.to_string(), success, detail: detail.to_string() }
}

fn completed(name: &str) -> Action {
    Action::Completed { name: name.to_string() }
}

fn child_exit(success: bool, detail: &str, uptime_ms: u64) -> Report {
    Report::Exited { success, detail: detail.to_string(), uptime_ms }
}

#[test]
fn a_new_daemon_is_not_started() {
    let daemon = Daemon::new(config("true", "/bin/true", "oneshot"));
    assert_eq!(daemon.phase(), Phase::NotStarted);
    assert_eq!(daemon.child(), None);
    assert_eq!(daemon.name(), "/bin/true");
    assert_eq!(daemon.desc(), "true");
    assert!(daemon.is_oneshot());
    assert_eq!(daemon.policy(), RestartPolicy { base_ms: 100, cap_ms: 30_000, min_uptime_ms: 10_000 });
    assert_eq!(daemon.config().command, "/bin/true");
}

#[test]
fn oneshot_true_starts_exits_and_completes() {
    let mut daemon = Daemon::new(config("true", "/bin/true", "oneshot"));
    let mut events = Vec::new();
    let step = daemon.observe(Report::Spawned { child: 41 });
    assert_eq!(step.directive, Directive::Continue);
    assert_eq!(daemon.phase(), Phase::Running);
    assert_eq!(daemon.child(), Some(41));
    events.extend(step.events);
    let step = daemon.observe(child_exit(true, "exit status: 0", 3));
    assert_eq!(step.directive, Directive::Continue);
    events.extend(step.events);
    assert_eq!(events, vec![started("true"), exited("true", true, "exit status: 0"), completed("true")]);
    assert_eq!(daemon.phase(), Phase::Completed);
    assert_eq!(daemon.child(), None);
}

#[test]
fn a_completed_oneshot_never_restarts() {
    let mut daemon = Daemon::new(config("true", "/bin/true", "oneshot"));
    daemon.observe(Report::Spawned { child: 1 });
    daemon.observe(child_exit(false, "exit status: 1", 3));
    assert_eq!(daemon.phase(), Phase::Completed);
    let quiet = Step { events: Vec::new(), directive: Directive::Continue };
    assert_eq!(daemon.observe(Report::Spawned { child: 2 }), quiet);
    assert_eq!(daemon.observe(child_exit(true, "", 0)), quiet);
    assert_eq!(daemon.observe(Report::SpawnFailed { detail: "no".to_string() }), quiet);
    assert_eq!(daemon.phase(), Phase::Completed);
    assert_eq!(daemon.child(), None);
}

#[test]
fn a_oneshot_that_fails_to_launch_is_through() {
    let mut daemon = Daemon::new(config("gone", "/bin/gone", "oneshot"));
    let step = daemon.observe(Report::SpawnFailed { detail: "No such file or directory".to_string() });
    assert_eq!(step.events, vec![exited("gone", false, "No such file or directory"), completed("gone")]);
    assert_eq!(step.directive, Directive::Continue);
    assert_eq!(daemon.phase(), Phase::Completed);
}

#[test]
fn a_persistent_daemon_is_restarted_in_strict_alternation() {
    let mut daemon = Daemon::new(config("web", "/usr/bin/httpd", "daemon"));
    let mut events = Vec::new();
    for round in 0..5u32 {
        let step = daemon.observe(Report::Spawned { child: 100 + round });
        events.extend(step.events);
        assert_eq!(daemon.phase(), Phase::Running);
        let step = daemon.observe(child_exit(false, "exit status: 1", 0));
        events.extend(step.events);
        assert_eq!(daemon.phase(), Phase::Restarting);
        assert!(matches!(step.directive, Directive::Spawn { .. }));
    }
    assert_eq!(events.len(), 10);
    for (i, event) in events.iter().enumerate() {
        if i % 2 == 0 {
            assert_eq!(*event, started("web"));
        } else {
            assert_eq!(*event, exited("web", false, "exit status: 1"));
        }
    }
}

#[test]
fn the_pause_doubles_with_every_short_run() {
    let mut daemon = Daemon::new(config("web", "/usr/bin/httpd", "daemon"));
    let mut pauses = Vec::new();
    for _ in 0..11 {
        daemon.observe(Report::Spawned { child: 1 });
        match daemon.observe(child_exit(false, "", 5)).directive {
            Directive::Spawn { after_ms } => pauses.push(after_ms),
            other => panic!("{:?}", other),
        }
    }
    assert_eq!(pauses, vec![100, 200, 400, 800, 1600, 3200, 6400, 12800, 25600, 30000, 30000]);
}

#[test]
fn a_run_that_lasted_starts_the_pause_over() {
    let mut daemon = Daemon::new(config("web", "/usr/bin/httpd", "daemon"));
    let mut pauses = Vec::new();
    for uptime_ms in [0, 9_999, 10_000, 1, 20_000, 20_000] {
        daemon.observe(Report::Spawned { child: 1 });
        match daemon.observe(child_exit(true, "", uptime_ms)).directive {
            Directive::Spawn { after_ms } => pauses.push(after_ms),
            other => panic!("{:?}", other),
        }
    }
    assert_eq!(pauses, vec![100, 200, 100, 200, 100, 100]);
}

#[test]
fn a_failed_launch_of_a_persistent_daemon_is_retried_with_a_pause() {
    let mut daemon = Daemon::with_policy(
        config("web", "/usr/bin/httpd", "daemon"),
        RestartPolicy { base_ms: 10, cap_ms: 35, min_uptime_ms: 1000 },
    );
    let mut pauses = Vec::new();
    for _ in 0..4 {
        let step = daemon.observe(Report::SpawnFailed { detail: "denied".to_string() });
        assert_eq!(step.events, vec![exited("web", false, "denied")]);
        assert_eq!(daemon.phase(), Phase::Restarting);
        match step.directive {
            Directive::Spawn { after_ms } => pauses.push(after_ms),
            other => panic!("{:?}", other),
        }
    }
    assert_eq!(pauses, vec![10, 20, 35, 35]);
    let step = daemon.observe(Report::Spawned { child: 9 });
    assert_eq!(step.events, vec![started("web")]);
    assert_eq!(daemon.phase(), Phase::Running);
}

#[test]
fn delay_is_the_base_doubled_up_to_the_cap() {
    let policy = RestartPolicy::standard();
    assert_eq!(policy, RestartPolicy::default());
    assert_eq!(policy.delay(0), 100);
    assert_eq!(policy.delay(1), 200);
    assert_eq!(policy.delay(3), 800);
    assert_eq!(policy.delay(8), 25_600);
    assert_eq!(policy.delay(9), 30_000);
    assert_eq!(policy.delay(64), 30_000);
    assert_eq!(policy.delay(u32::MAX), 30_000);
    let odd = RestartPolicy { base_ms: 3, cap_ms: 7, min_uptime_ms: 0 };
    assert_eq!((odd.delay(0), odd.delay(1), odd.delay(2), odd.delay(3)), (3, 6, 7, 7));
    let low = RestartPolicy { base_ms: 50, cap_ms: 20, min_uptime_ms: 0 };
    assert_eq!((low.delay(0), low.delay(5)), (20, 20));
    let none = RestartPolicy { base_ms: 0, cap_ms: 20, min_uptime_ms: 0 };
    assert_eq!((none.delay(0), none.delay(40)), (0, 0));
    let wide = RestartPolicy { base_ms: 1, cap_ms: u64::MAX, min_uptime_ms: 0 };
    assert_eq!(wide.delay(63), 1 << 63);
    assert_eq!(wide.delay(64), u64::MAX);
}

#[test]
fn stop_suppresses_the_next_restart() {
    let mut daemon = Daemon::new(config("web", "/usr/bin/httpd", "daemon"));
    daemon.observe(Report::Spawned { child: 7 });
    let reply = daemon.command(ReqAction::Stop);
    assert_eq!(reply.response, Response::Success(None));
    assert_eq!(reply.directive, Directive::Terminate);
    assert_eq!(daemon.phase(), Phase::Running);
    let step = daemon.observe(child_exit(false, "signal: 15", 0));
    assert_eq!(step.events, vec![exited("web", false, "signal: 15")]);
    assert_eq!(step.directive, Directive::Continue);
    assert_eq!(daemon.phase(), Phase::Stopped);
    assert_eq!(daemon.child(), None);
    let quiet = Step { events: Vec::new(), directive: Directive::Continue };
    assert_eq!(daemon.observe(Report::Spawned { child: 8 }), quiet);
    assert_eq!(daemon.phase(), Phase::Stopped);
}

#[test]
fn kill_ends_a_oneshot_without_completion() {
    let mut daemon = Daemon::new(config("slow", "/bin/sleep", "oneshot"));
    daemon.observe(Report::Spawned { child: 7 });
    let reply = daemon.command(ReqAction::Kill);
    assert_eq!(reply.response, Response::Success(None));
    assert_eq!(reply.directive, Directive::Kill);
    let step = daemon.observe(child_exit(false, "signal: 9", 50));
    assert_eq!(step.events, vec![exited("slow", false, "signal: 9")]);
    assert_eq!(daemon.phase(), Phase::Stopped);
}

#[test]
fn status_changes_nothing() {
    let mut daemon = Daemon::new(config("web", "/usr/bin/httpd", "daemon"));
    daemon.observe(Report::Spawned { child: 7 });
    daemon.command(ReqAction::Stop);
    daemon.observe(child_exit(true, "", 0));
    for _ in 0..3 {
        let reply = daemon.command(ReqAction::Status);
        assert_eq!(reply.response, Response::Success(Some(Phase::Stopped)));
        assert_eq!(reply.directive, Directive::Continue);
        assert_eq!(daemon.status(), Response::Success(Some(Phase::Stopped)));
        assert_eq!(daemon.phase(), Phase::Stopped);
        assert_eq!(daemon.child(), None);
    }
}

#[test]
fn status_tells_each_phase() {
    let mut daemon = Daemon::new(config("web", "/usr/bin/httpd", "daemon"));
    assert_eq!(daemon.status(), Response::Success(Some(Phase::NotStarted)));
    daemon.observe(Report::Spawned { child: 7 });
    assert_eq!(daemon.status(), Response::Success(Some(Phase::Running)));
    daemon.observe(child_exit(true, "", 0));
    assert_eq!(daemon.status(), Response::Success(Some(Phase::Restarting)));
    let mut once = Daemon::new(config("true", "/bin/true", "oneshot"));
    once.observe(Report::Spawned { child: 7 });
    once.observe(child_exit(true, "", 0));
    assert_eq!(once.status(), Response::Success(Some(Phase::Completed)));
}

#[test]
fn kill_of_a_daemon_that_is_not_running_fails_and_start_then_succeeds() {
    let mut daemon = Daemon::new(config("true", "/bin/true", "oneshot"));
    daemon.observe(Report::Spawned { child: 1 });
    daemon.observe(child_exit(true, "", 0));
    let reply = daemon.command(ReqAction::Kill);
    assert_eq!(reply.response, Response::Failure(Error::DaemonNotRunning("true".to_string())));
    assert_eq!(reply.directive, Directive::Continue);
    assert_eq!(daemon.phase(), Phase::Completed);
    let reply = daemon.start();
    assert_eq!(reply.response, Response::Success(None));
    assert_eq!(reply.directive, Directive::Spawn { after_ms: 0 });
    assert_eq!(daemon.phase(), Phase::NotStarted);
    let step = daemon.observe(Report::Spawned { child: 2 });
    assert_eq!(step.events, vec![started("true")]);
    assert_eq!(daemon.phase(), Phase::Running);
}

#[test]
fn stop_of_a_daemon_that_is_not_running_fails() {
    let mut daemon = Daemon::new(config("web", "/usr/bin/httpd", "daemon"));
    let reply = daemon.command(ReqAction::Stop);
    assert_eq!(reply.response, Response::Failure(Error::DaemonNotRunning("web".to_string())));
    assert_eq!(daemon.phase(), Phase::NotStarted);
    daemon.observe(Report::SpawnFailed { detail: String::new() });
    let reply = daemon.command(ReqAction::Stop);
    assert_eq!(reply.response, Response::Failure(Error::DaemonNotRunning("web".to_string())));
    assert_eq!(daemon.phase(), Phase::Restarting);
}

#[test]
fn start_of_a_running_daemon_is_a_success_that_does_nothing() {
    let mut daemon = Daemon::new(config("web", "/usr/bin/httpd", "daemon"));
    let reply = daemon.start();
    assert_eq!((reply.response, reply.directive), (Response::Success(None), Directive::Continue));
    assert_eq!(daemon.phase(), Phase::NotStarted);
    daemon.observe(Report::Spawned { child: 7 });
    let reply = daemon.start();
    assert_eq!((reply.response, reply.directive), (Response::Success(None), Directive::Continue));
    assert_eq!(daemon.phase(), Phase::Running);
    assert_eq!(daemon.child(), Some(7));
}

#[test]
fn start_after_a_stop_begins_with_the_shortest_pause() {
    let mut daemon = Daemon::new(config("web", "/usr/bin/httpd", "daemon"));
    for _ in 0..3 {
        daemon.observe(Report::Spawned { child: 7 });
        daemon.observe(child_exit(false, "", 0));
    }
    daemon.observe(Report::Spawned { child: 7 });
    daemon.command(ReqAction::Stop);
    daemon.observe(child_exit(false, "", 0));
    assert_eq!(daemon.start().directive, Directive::Spawn { after_ms: 0 });
    daemon.observe(Report::Spawned { child: 8 });
    assert_eq!(daemon.observe(child_exit(false, "", 0)).directive, Directive::Spawn { after_ms: 100 });
}

#[test]
fn a_report_that_does_not_fit_the_phase_is_passed_over() {
    let mut daemon = Daemon::new(config("web", "/usr/bin/httpd", "daemon"));
    let quiet = Step { events: Vec::new(), directive: Directive::Continue };
    assert_eq!(daemon.observe(child_exit(true, "", 0)), quiet);
    assert_eq!(daemon.phase(), Phase::NotStarted);
    daemon.observe(Report::Spawned { child: 7 });
    assert_eq!(daemon.observe(Report::Spawned { child: 8 }), quiet);
    assert_eq!(daemon.observe(Report::SpawnFailed { detail: String::new() }), quiet);
    assert_eq!(daemon.child(), Some(7));
    assert_eq!(daemon.phase(), Phase::Running);
}

#[test]
fn phases_have_their_words() {
    assert_eq!(Phase::NotStarted.name(), "not started");
    assert_eq!(Phase::Running.name(), "running");
    assert_eq!(Phase::Restarting.name(), "restarting");
    assert_eq!(Phase::Stopped.name(), "stopped");
    assert_eq!(Phase::Completed.name(), "completed");
}

#[test]
fn spawner_makes_one_daemon_for_each_definition() {
    let configs = vec![config("a", "/bin/a", "daemon"), config("b", "/bin/b", "oneshot"), config("c", "/bin/c", "daemon")];
    let daemons = spawner(configs);
    let descs: Vec<&str> = daemons.iter().map(|d| d.desc()).collect();
    assert_eq!(descs, vec!["a", "b", "c"]);
    assert!(daemons.iter().all(|d| d.phase() == Phase::NotStarted && d.child().is_none()));
    assert!(daemons[1].is_oneshot());
    assert!(!daemons[0].is_oneshot());
    assert!(spawner(Vec::new()).is_empty());
}
