use runbun::action::Action;
use runbun::bus::EventBus;
use runbun::daemons::load_config;
use runbun::errors::Error;
use runbun::socket::{dispatch, listener, route, Answer, Dispatch, ReqAction, Request, Response};
use runbun::supervisor::{spawner, Daemon, Directive, Phase, Report};

fn daemons() -> Vec<Daemon> {
    let config = |desc: &str, command: &str, kind: &str| {
        load_config(&format!(
            "desc = \"{}\"\ncommand = \"{}\"\nargs = []\nenv = []\nrun_group = 0\nkind = \"{}\"\n",
            desc, command, kind
        ))
        .unwrap()
    };
    spawner(vec![
        config("web", "/usr/bin/httpd", "daemon"),
        config("true", "/bin/true", "oneshot"),
        config("web", "/usr/bin/nginx", "daemon"),
    ])
}

fn request(target: &str, action: ReqAction) -> Request {
    Request { target: target.to_string(), action }
}

#[test]
fn actions_have_their_words() {
    for (word, action) in
        [("status", ReqAction::Status), ("start", ReqAction::Start), ("stop", ReqAction::Stop), ("kill", ReqAction::Kill)]
    {
        assert_eq!(ReqAction::from_str(word), Ok(action));
        assert_eq!(action.name(), word);
    }
}

#[test]
fn an_unknown_action_is_refused() {
    assert_eq!(ReqAction::from_str("restart"), Err(Error::InvalidAction("restart".to_string())));
    assert_eq!(ReqAction::from_str("Status"), Err(Error::InvalidAction("Status".to_string())));
    assert_eq!(ReqAction::from_str(""), Err(Error::InvalidAction(String::new())));
}

#[test]
fn a_request_is_read_from_its_two_fields() {
    assert_eq!(Request::parse("web", "stop"), Ok(request("web", ReqAction::Stop)));
    assert_eq!(Request::parse("", "status"), Ok(request("", ReqAction::Status)));
    assert_eq!(Request::parse("web", "halt"), Err(Error::InvalidAction("halt".to_string())));
}

#[test]
fn a_response_goes_over_the_wire_as_ok_and_detail() {
    let status = Response::Success(Some(Phase::Running));
    assert!(status.ok());
    assert_eq!(status.detail(), "running");
    let done = Response::Success(None);
    assert!(done.ok());
    assert_eq!(done.detail(), "");
    let failed = Response::Failure(Error::DaemonNotRunning("web".to_string()));
    assert!(!failed.ok());
    assert_eq!(failed.detail(), "Daemon web is not running");
    let unknown = Response::Failure(Error::UnknownDaemon("mail".to_string()));
    assert!(!unknown.ok());
    assert_eq!(unknown.detail(), "Unknown daemon: mail");
}

#[test]
fn route_finds_the_first_daemon_of_that_description() {
    let daemons = daemons();
    assert_eq!(route(&daemons, "web"), Some(0));
    assert_eq!(route(&daemons, "true"), Some(1));
    assert_eq!(route(&daemons, "mail"), None);
    assert_eq!(route(&daemons, "/bin/true"), None);
    assert_eq!(route(&Vec::new(), "web"), None);
}

#[test]
fn a_request_for_an_unknown_target_fails() {
    let mut daemons = daemons();
    let done = dispatch(&mut daemons, &request("mail", ReqAction::Start));
    assert_eq!(
        done,
        Dispatch {
            response: Response::Failure(Error::UnknownDaemon("mail".to_string())),
            daemon: None,
            directive: Directive::Continue,
        }
    );
    assert!(daemons.iter().all(|d| d.phase() == Phase::NotStarted));
}

#[test]
fn a_request_reaches_the_daemon_it_names_and_no_other() {
    let mut daemons = daemons();
    daemons[0].observe(Report::Spawned { child: 10 });
    daemons[1].observe(Report::Spawned { child: 11 });
    daemons[2].observe(Report::Spawned { child: 12 });
    let done = dispatch(&mut daemons, &request("true", ReqAction::Kill));
    assert_eq!(done, Dispatch { response: Response::Success(None), daemon: Some(1), directive: Directive::Kill });
    let step = daemons[1].observe(Report::Exited { success: false, detail: "signal: 9".to_string(), uptime_ms: 1 });
    assert_eq!(daemons[1].phase(), Phase::Stopped);
    assert_eq!(step.events.len(), 1);
    let step = daemons[0].observe(Report::Exited { success: false, detail: String::new(), uptime_ms: 1 });
    assert_eq!(daemons[0].phase(), Phase::Restarting);
    assert_eq!(step.directive, Directive::Spawn { after_ms: 100 });
    assert_eq!(daemons[2].phase(), Phase::Running);
}

#[test]
fn status_requests_get_the_same_response_each_time() {
    let mut daemons = daemons();
    let first = dispatch(&mut daemons, &request("web", ReqAction::Status));
    let second = dispatch(&mut daemons, &request("web", ReqAction::Status));
    assert_eq!(first, second);
    assert_eq!(
        first,
        Dispatch { response: Response::Success(Some(Phase::NotStarted)), daemon: Some(0), directive: Directive::Continue }
    );
}

#[test]
fn kill_is_refused_and_start_accepted_for_a_daemon_that_is_not_running() {
    let mut daemons = daemons();
    daemons[1].observe(Report::Spawned { child: 11 });
    daemons[1].observe(Report::Exited { success: true, detail: String::new(), uptime_ms: 1 });
    let done = dispatch(&mut daemons, &request("true", ReqAction::Kill));
    assert_eq!(done.response, Response::Failure(Error::DaemonNotRunning("true".to_string())));
    assert_eq!(done.daemon, Some(1));
    let done = dispatch(&mut daemons, &request("true", ReqAction::Start));
    assert_eq!(
        done,
        Dispatch { response: Response::Success(None), daemon: Some(1), directive: Directive::Spawn { after_ms: 0 } }
    );
    let step = daemons[1].observe(Report::Spawned { child: 12 });
    assert_eq!(step.events, vec![Action::Started { name: "true".to_string() }]);
}

#[test]
fn listener_answers_over_the_wire() {
    let mut daemons = daemons();
    daemons[0].observe(Report::Spawned { child: 10 });
    assert_eq!(
        listener(&mut daemons, "web", "status"),
        Answer { ok: true, detail: "running".to_string(), daemon: Some(0), directive: Directive::Continue }
    );
    assert_eq!(
        listener(&mut daemons, "web", "stop"),
        Answer { ok: true, detail: String::new(), daemon: Some(0), directive: Directive::Terminate }
    );
    assert_eq!(
        listener(&mut daemons, "true", "stop"),
        Answer {
            ok: false,
            detail: "Daemon true is not running".to_string(),
            daemon: Some(1),
            directive: Directive::Continue,
        }
    );
    assert_eq!(
        listener(&mut daemons, "mail", "status"),
        Answer { ok: false, detail: "Unknown daemon: mail".to_string(), daemon: None, directive: Directive::Continue }
    );
    assert_eq!(
        listener(&mut daemons, "web", "reload"),
        Answer { ok: false, detail: "Invalid action: reload".to_string(), daemon: None, directive: Directive::Continue }
    );
}

#[test]
fn the_bus_hands_events_on_in_the_order_they_came() {
    let mut bus = EventBus::new(8);
    assert!(bus.is_empty());
    assert_eq!(bus.capacity(), 8);
    let events = vec![
        Action::Started { name: "a".to_string() },
        Action::Started { name: "b".to_string() },
        Action::Exited { name: "a".to_string(), success: true, detail: String::new() },
        Action::Completed { name: "a".to_string() },
    ];
    for event in events.iter() {
        assert_eq!(bus.publish(event.clone()), Ok(()));
    }
    assert_eq!(bus.len(), 4);
    let mut taken = Vec::new();
    while let Some(event) = bus.next() {
        taken.push(event);
    }
    assert_eq!(taken, events);
    assert!(bus.is_empty());
    assert_eq!(bus.next(), None);
}

#[test]
fn a_full_bus_hands_the_event_back() {
    let mut bus = EventBus::new(2);
    let event = |n: &str| Action::ConfigWarning { detail: n.to_string() };
    assert_eq!(bus.publish(event("1")), Ok(()));
    assert!(!bus.is_full());
    assert_eq!(bus.publish(event("2")), Ok(()));
    assert!(bus.is_full());
    assert_eq!(bus.publish(event("3")), Err(event("3")));
    assert_eq!(bus.len(), 2);
    assert_eq!(bus.next(), Some(event("1")));
    assert_eq!(bus.publish(event("3")), Ok(()));
    assert_eq!(bus.next(), Some(event("2")));
    assert_eq!(bus.next(), Some(event("3")));
    assert_eq!(bus.next(), None);
}

#[test]
fn a_bus_without_room_takes_nothing() {
    let mut bus = EventBus::new(0);
    assert!(bus.is_full());
    assert!(bus.is_empty());
    let event = Action::Completed { name: "x".to_string() };
    assert_eq!(bus.publish(event.clone()), Err(event));
}
