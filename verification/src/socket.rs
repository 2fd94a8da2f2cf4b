//! The control interface: requests that name a daemon and an action, and the
//! one response that each of them gets.

use vstd::prelude::*;

use crate::errors::{lift, Error, ErrorView};
use crate::supervisor::{Daemon, DaemonView, Directive, Phase};
use crate::text::{owned, same_text};

verus! {

/// What a request asks of a daemon.
#[derive(Debug, Copy, Clone, PartialEq, Eq, Structural)]
pub enum ReqAction {
    Status,
    Start,
    Stop,
    Kill,
}

impl DeepView for ReqAction {
    type V = ReqAction;

    open spec fn deep_view(&self) -> ReqAction {
        *self
    }
}

impl ReqAction {
    /// The action that a request names with `text`.
    pub open spec fn parse(text: Seq<char>) -> Result<ReqAction, ErrorView> {
        if text == "status"@ {
            Ok(ReqAction::Status)
        } else if text == "start"@ {
            Ok(ReqAction::Start)
        } else if text == "stop"@ {
            Ok(ReqAction::Stop)
        } else if text == "kill"@ {
            Ok(ReqAction::Kill)
        } else {
            Err(ErrorView::InvalidAction(text))
        }
    }

    /// The word that names the action on the wire.
    pub open spec fn word(self) -> Seq<char> {
        match self {
            ReqAction::Status => "status"@,
            ReqAction::Start => "start"@,
            ReqAction::Stop => "stop"@,
            ReqAction::Kill => "kill"@,
        }
    }

    /// Reads an action: `status`, `start`, `stop` or `kill`.
    pub fn from_str(s: &str) -> (r: Result<ReqAction, Error>)
        ensures
            lift(r) == ReqAction::parse(s@),
    {
        if same_text(s, "status") {
            Ok(ReqAction::Status)
        } else if same_text(s, "start") {
            Ok(ReqAction::Start)
        } else if same_text(s, "stop") {
            Ok(ReqAction::Stop)
        } else if same_text(s, "kill") {
            Ok(ReqAction::Kill)
        } else {
            Err(Error::InvalidAction(owned(s)))
        }
    }

    /// The word that names the action on the wire.
    pub fn name(&self) -> (r: String)
        ensures
            r@ == self.word(),
    {
        match self {
            ReqAction::Status => owned("status"),
            ReqAction::Start => owned("start"),
            ReqAction::Stop => owned("stop"),
            ReqAction::Kill => owned("kill"),
        }
    }
}

/// A request: the description of the daemon it is for, and what it asks.
#[derive(Debug, PartialEq, Eq)]
pub struct Request {
    pub target: String,
    pub action: ReqAction,
}

pub ghost struct RequestView {
    pub target: Seq<char>,
    pub action: ReqAction,
}

impl View for Request {
    type V = RequestView;

    open spec fn view(&self) -> RequestView {
        RequestView { target: self.target@, action: self.action }
    }
}

impl DeepView for Request {
    type V = RequestView;

    open spec fn deep_view(&self) -> RequestView {
        self@
    }
}

impl Request {
    /// The request that the two fields on the wire make.
    pub open spec fn decode(target: Seq<char>, action: Seq<char>) -> Result<RequestView, ErrorView> {
        match ReqAction::parse(action) {
            Ok(action) => Ok(RequestView { target, action }),
            Err(error) => Err(error),
        }
    }

    /// Reads a request from its two fields on the wire. Any target is taken;
    /// whether a daemon answers to it is for the dispatch to say.
    pub fn parse(target: &str, action: &str) -> (r: Result<Request, Error>)
        ensures
            lift(r) == Request::decode(target@, action@),
    {
        match ReqAction::from_str(action) {
            Ok(action) => Ok(Request { target: owned(target), action }),
            Err(error) => Err(error),
        }
    }
}

/// The answer to a request.
#[derive(Debug, PartialEq, Eq)]
pub enum Response {
    /// The request was carried out. A status request is answered with the
    /// phase of the daemon.
    Success(Option<Phase>),
    Failure(Error),
}

pub ghost enum ResponseView {
    Success(Option<Phase>),
    Failure(ErrorView),
}

impl View for Response {
    type V = ResponseView;

    open spec fn view(&self) -> ResponseView {
        match self {
            Response::Success(phase) => ResponseView::Success(*phase),
            Response::Failure(error) => ResponseView::Failure(error@),
        }
    }
}

impl DeepView for Response {
    type V = ResponseView;

    open spec fn deep_view(&self) -> ResponseView {
        self@
    }
}

impl ResponseView {
    /// The `detail` of the response on the wire: the phase for a status, the
    /// description of the error for a failure, and nothing else.
    pub open spec fn detail(self) -> Seq<char> {
        match self {
            ResponseView::Success(Some(phase)) => phase.word(),
            ResponseView::Success(None) => Seq::empty(),
            ResponseView::Failure(error) => error.describe(),
        }
    }
}

impl Response {
    /// The `ok` of the response on the wire.
    pub fn ok(&self) -> (r: bool)
        ensures
            r == (self@ is Success),
    {
        match self {
            Response::Success(_) => true,
            Response::Failure(_) => false,
        }
    }

    /// The `detail` of the response on the wire.
    pub fn detail(&self) -> (r: String)
        ensures
            r@ == self@.detail(),
    {
        match self {
            Response::Success(Some(phase)) => phase.name(),
            Response::Success(None) => String::new(),
            Response::Failure(error) => error.describe(),
        }
    }
}

/// Daemon `i` is the first that answers to `target`.
pub open spec fn first_named(daemons: Seq<DaemonView>, target: Seq<char>, i: int) -> bool {
    &&& 0 <= i < daemons.len()
    &&& daemons[i].name() == target
    &&& forall|j: int| 0 <= j < i ==> daemons[j].name() != target
}

/// The place of the daemon that a request for `target` goes to: the first
/// one of that description, if there is any.
pub open spec fn place_of(daemons: Seq<DaemonView>, target: Seq<char>) -> Option<int> {
    if exists|i: int| first_named(daemons, target, i) {
        Some(choose|i: int| first_named(daemons, target, i))
    } else {
        None
    }
}

/// The daemons after a request: the one addressed has taken the command, the
/// others are as they were.
pub open spec fn after_request(daemons: Seq<DaemonView>, request: RequestView) -> Seq<DaemonView> {
    match place_of(daemons, request.target) {
        Some(i) => daemons.update(i, daemons[i].after_command(request.action)),
        None => daemons,
    }
}

/// The response to a request: that of the daemon addressed, or the failure
/// that says there is none.
pub open spec fn response_to(daemons: Seq<DaemonView>, request: RequestView) -> ResponseView {
    match place_of(daemons, request.target) {
        Some(i) => daemons[i].reply(request.action),
        None => ResponseView::Failure(ErrorView::UnknownDaemon(request.target)),
    }
}

/// What the runtime of the daemon addressed is to do on a request.
pub open spec fn bidding_of(daemons: Seq<DaemonView>, request: RequestView) -> Directive {
    match place_of(daemons, request.target) {
        Some(i) => daemons[i].bidding(request.action),
        None => Directive::Continue,
    }
}

/// All of the daemons are well-formed.
pub open spec fn all_wf(daemons: Seq<DaemonView>) -> bool {
    forall|i: int| 0 <= i < daemons.len() ==> (#[trigger] daemons[i]).wf()
}

/// What a request led to.
#[derive(Debug, PartialEq, Eq)]
pub struct Dispatch {
    pub response: Response,
    /// The place of the daemon that took the command.
    pub daemon: Option<usize>,
    /// What the runtime of that daemon is to do.
    pub directive: Directive,
}

/// What a request on the wire led to.
#[derive(Debug, PartialEq, Eq)]
pub struct Answer {
    pub ok: bool,
    pub detail: String,
    /// The place of the daemon that took the command.
    pub daemon: Option<usize>,
    /// What the runtime of that daemon is to do.
    pub directive: Directive,
}

/// Finds the daemon that requests for `target` go to.
pub fn route(daemons: &Vec<Daemon>, target: &str) -> (r: Option<usize>)
    ensures
        match r {
            Some(i) => place_of(daemons.deep_view(), target@) == Some(i as int),
            None => place_of(daemons.deep_view(), target@) is None,
        },
        r matches Some(i) ==> i < daemons.len(),
{
    let mut i: usize = 0;
    while i < daemons.len()
        invariant
            i <= daemons.len(),
            forall|j: int| 0 <= j < i ==> daemons.deep_view()[j].name() != target@,
        decreases daemons.len() - i,
    {
        if same_text(daemons[i].desc(), target) {
            proof {
                let views = daemons.deep_view();
                assert(first_named(views, target@, i as int));
                let c = choose|c: int| first_named(views, target@, c);
                assert(c == i);
            }
            return Some(i);
        }
        i += 1;
    }
    None
}

/// Carries a request to the daemon it names and brings back the response.
/// A request for a target that no daemon answers to fails and reaches none.
pub fn dispatch(daemons: &mut Vec<Daemon>, request: &Request) -> (r: Dispatch)
    requires
        all_wf(old(daemons).deep_view()),
    ensures
        all_wf(final(daemons).deep_view()),
        final(daemons).deep_view() == after_request(old(daemons).deep_view(), request@),
        r.response@ == response_to(old(daemons).deep_view(), request@),
        r.directive == bidding_of(old(daemons).deep_view(), request@),
        match r.daemon {
            Some(i) => place_of(old(daemons).deep_view(), request@.target) == Some(i as int),
            None => place_of(old(daemons).deep_view(), request@.target) is None,
        },
{
    let ghost before = daemons.deep_view();
    match route(daemons, request.target.as_str()) {
        None => Dispatch {
            response: Response::Failure(Error::UnknownDaemon(request.target.clone())),
            daemon: None,
            directive: Directive::Continue,
        },
        Some(i) => {
            assert(before[i as int].wf());
            let reply = daemons[i].command(request.action);
            proof {
                let after = daemons.deep_view();
                assert(after =~= before.update(i as int, before[i as int].after_command(request.action)));
                assert forall|k: int| 0 <= k < after.len() implies (#[trigger] after[k]).wf() by {
                    if k != i {
                        assert(after[k] == before[k]);
                    }
                }
            }
            Dispatch { response: reply.response, daemon: Some(i), directive: reply.directive }
        },
    }
}

/// Serves one request as it comes over the wire, a target and the word of an
/// action, and says what goes back over it. A request whose action is no
/// action fails and reaches no daemon.
pub fn listener(daemons: &mut Vec<Daemon>, target: &str, action: &str) -> (r: Answer)
    requires
        all_wf(old(daemons).deep_view()),
    ensures
        all_wf(final(daemons).deep_view()),
        match Request::decode(target@, action@) {
            Err(error) => {
                &&& final(daemons).deep_view() == old(daemons).deep_view()
                &&& !r.ok
                &&& r.detail@ == error.describe()
                &&& r.daemon is None
                &&& r.directive == Directive::Continue
            },
            Ok(request) => {
                &&& final(daemons).deep_view() == after_request(old(daemons).deep_view(), request)
                &&& r.ok == (response_to(old(daemons).deep_view(), request) is Success)
                &&& r.detail@ == response_to(old(daemons).deep_view(), request).detail()
                &&& r.directive == bidding_of(old(daemons).deep_view(), request)
                &&& match r.daemon {
                    Some(i) => place_of(old(daemons).deep_view(), target@) == Some(i as int),
                    None => place_of(old(daemons).deep_view(), target@) is None,
                }
            },
        },
{
    match Request::parse(target, action) {
        Err(error) => Answer {
            ok: false,
            detail: error.describe(),
            daemon: None,
            directive: Directive::Continue,
        },
        Ok(request) => {
            let done = dispatch(daemons, &request);
            Answer {
                ok: done.response.ok(),
                detail: done.response.detail(),
                daemon: done.daemon,
                directive: done.directive,
            }
        },
    }
}

} // verus!
