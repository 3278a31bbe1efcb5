//! Optimization session vocabulary.

use vstd::prelude::*;

use crate::text::str_eq;

verus! {

/// Lifecycle state of an optimize session.
#[derive(Debug, Clone, Copy, PartialEq, Eq, Structural)]
pub enum SessionStatus {
    Running,
    Paused,
    Completed,
    Failed,
    Crashed,
}

/// The status stored under a text label; unknown labels read as `Failed`.
pub open spec fn status_named(s: Seq<char>) -> SessionStatus {
    if s == "running"@ {
        SessionStatus::Running
    } else if s == "paused"@ {
        SessionStatus::Paused
    } else if s == "completed"@ {
        SessionStatus::Completed
    } else if s == "failed"@ {
        SessionStatus::Failed
    } else if s == "crashed"@ {
        SessionStatus::Crashed
    } else {
        SessionStatus::Failed
    }
}

impl SessionStatus {
    pub open spec fn name(self) -> Seq<char> {
        match self {
            SessionStatus::Running => "running"@,
            SessionStatus::Paused => "paused"@,
            SessionStatus::Completed => "completed"@,
            SessionStatus::Failed => "failed"@,
            SessionStatus::Crashed => "crashed"@,
        }
    }

    pub fn as_str(self) -> (s: &'static str)
        ensures
            s@ == self.name(),
    {
        match self {
            SessionStatus::Running => "running",
            SessionStatus::Paused => "paused",
            SessionStatus::Completed => "completed",
            SessionStatus::Failed => "failed",
            SessionStatus::Crashed => "crashed",
        }
    }

    /// Decode a stored status label; unknown labels read as `Failed`.
    pub fn from_stored(s: &str) -> (v: SessionStatus)
        ensures
            v == status_named(s@),
    {
        if str_eq(s, "running") {
            SessionStatus::Running
        } else if str_eq(s, "paused") {
            SessionStatus::Paused
        } else if str_eq(s, "completed") {
            SessionStatus::Completed
        } else if str_eq(s, "failed") {
            SessionStatus::Failed
        } else if str_eq(s, "crashed") {
            SessionStatus::Crashed
        } else {
            SessionStatus::Failed
        }
    }
}

/// Law: a stored status label reads back as the status that wrote it.
pub proof fn lemma_status_roundtrip(v: SessionStatus)
    ensures
        status_named(v.name()) == v,
{
    reveal_strlit("running");
    reveal_strlit("paused");
    reveal_strlit("completed");
    reveal_strlit("failed");
    reveal_strlit("crashed");
    match v {
        SessionStatus::Running => {},
        SessionStatus::Paused => {
            assert("paused"@.len() != "running"@.len());
        },
        SessionStatus::Completed => {
            assert("completed"@.len() != "running"@.len());
            assert("completed"@.len() != "paused"@.len());
        },
        SessionStatus::Failed => {
            assert("failed"@.len() != "running"@.len());
            assert("failed"@[0] != "paused"@[0]);
            assert("failed"@.len() != "completed"@.len());
        },
        SessionStatus::Crashed => {
            assert("crashed"@[0] != "running"@[0]);
            assert("crashed"@.len() != "paused"@.len());
            assert("crashed"@.len() != "completed"@.len());
            assert("crashed"@.len() != "failed"@.len());
        },
    }
}

/// Safe mode is recommended after three or more failed sessions in a row.
pub fn safe_mode_recommended(failure_streak: u32) -> (b: bool)
    ensures
        b == (failure_streak >= 3),
{
    failure_streak >= 3
}

} // verus!
