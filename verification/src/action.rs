//! The events that the daemons and the configuration store report.

use vstd::prelude::*;

verus! {

/// One lifecycle notification on the event bus.
#[derive(Debug, PartialEq, Eq)]
pub enum Action {
    /// The child of the named daemon was launched.
    Started { name: String },
    /// The child of the named daemon ended, or could not be launched.
    /// `success` holds only for a child that ended with status 0.
    Exited { name: String, success: bool, detail: String },
    /// A definition was left out of the loaded set.
    ConfigWarning { detail: String },
    /// The named run-once daemon has finished for good.
    Completed { name: String },
}

/// An [`Action`] with its texts as sequences of characters.
pub ghost enum Event {
    Started { name: Seq<char> },
    Exited { name: Seq<char>, success: bool, detail: Seq<char> },
    ConfigWarning { detail: Seq<char> },
    Completed { name: Seq<char> },
}

impl View for Action {
    type V = Event;

    open spec fn view(&self) -> Event {
        match self {
            Action::Started { name } => Event::Started { name: name@ },
            Action::Exited { name, success, detail } => Event::Exited {
                name: name@,
                success: *success,
                detail: detail@,
            },
            Action::ConfigWarning { detail } => Event::ConfigWarning { detail: detail@ },
            Action::Completed { name } => Event::Completed { name: name@ },
        }
    }
}

impl Clone for Action {
    fn clone(&self) -> (r: Action)
        ensures
            r@ == self@,
    {
        match self {
            Action::Started { name } => Action::Started { name: name.clone() },
            Action::Exited { name, success, detail } => Action::Exited {
                name: name.clone(),
                success: *success,
                detail: detail.clone(),
            },
            Action::ConfigWarning { detail } => Action::ConfigWarning { detail: detail.clone() },
            Action::Completed { name } => Action::Completed { name: name.clone() },
        }
    }
}

impl DeepView for Action {
    type V = Event;

    open spec fn deep_view(&self) -> Event {
        self@
    }
}

} // verus!
