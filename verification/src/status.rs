//! The lifecycle attribute of a record and the moves it may make.

use vstd::prelude::*;
use crate::text::same_text;

verus! {

/// Liveness of a registered instance.
#[derive(Clone, Copy, Debug, PartialEq, Eq, Structural)]
pub enum Status {
    Online,
    Busy,
    Offline,
}

impl Status {
    /// The word that stands for the status on every wire.
    pub open spec fn label(self) -> Seq<char> {
        match self {
            Status::Online => "online"@,
            Status::Busy => "busy"@,
            Status::Offline => "offline"@,
        }
    }

    /// The status that `text` names, if it names one.
    pub open spec fn from_label(text: Seq<char>) -> Option<Status> {
        if text == "online"@ {
            Some(Status::Online)
        } else if text == "busy"@ {
            Some(Status::Busy)
        } else if text == "offline"@ {
            Some(Status::Offline)
        } else {
            None
        }
    }

    /// Whether the state machine has a move from `self` to `to`. Staying put
    /// is always possible; the one move that does not exist leads from
    /// offline straight to busy.
    pub open spec fn may_become(self, to: Status) -> bool {
        !(self == Status::Offline && to == Status::Busy)
    }

    /// Where a record in status `self` ends up when a router, a probe or an
    /// operator reports `reported`. An offline record stays offline: only a
    /// heartbeat or a registration brings it back.
    pub open spec fn after_report(self, reported: Status) -> Status {
        if self == Status::Offline {
            Status::Offline
        } else {
            reported
        }
    }

    pub fn as_str(self) -> (s: &'static str)
        ensures
            s@ == self.label(),
    {
        match self {
            Status::Online => "online",
            Status::Busy => "busy",
            Status::Offline => "offline",
        }
    }

    /// Reads a status word; any other text names no status.
    pub fn parse(text: &str) -> (r: Option<Status>)
        ensures
            r == Status::from_label(text@),
    {
        if same_text(text, "online") {
            Some(Status::Online)
        } else if same_text(text, "busy") {
            Some(Status::Busy)
        } else if same_text(text, "offline") {
            Some(Status::Offline)
        } else {
            None
        }
    }

    /// The status after a report, see [`Status::after_report`].
    pub fn report(self, reported: Status) -> (next: Status)
        ensures
            next == self.after_report(reported),
            self.may_become(next),
    {
        match self {
            Status::Offline => Status::Offline,
            _ => reported,
        }
    }
}

} // verus!
