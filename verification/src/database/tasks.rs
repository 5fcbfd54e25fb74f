//! The runs of agents.
use vstd::prelude::*;

use crate::text::{opt, owned};

verus! {

/// A run of an agent.
#[derive(Debug)]
pub struct Task {
    pub run_id: String,
    pub agent: String,
    pub session_id: String,
    pub status: String,
    pub started_at: i64,
    pub completed_at: Option<i64>,
    pub error: Option<String>,
}

/// What a run says.
pub struct TaskView {
    pub run_id: Seq<char>,
    pub agent: Seq<char>,
    pub session_id: Seq<char>,
    pub status: Seq<char>,
    pub started_at: i64,
    pub completed_at: Option<i64>,
    pub error: Option<Seq<char>>,
}

impl View for Task {
    type V = TaskView;

    open spec fn view(&self) -> TaskView {
        TaskView {
            run_id: self.run_id@,
            agent: self.agent@,
            session_id: self.session_id@,
            status: self.status@,
            started_at: self.started_at,
            completed_at: self.completed_at,
            error: opt(self.error),
        }
    }
}

/// The columns of a run's row, in the order in which they are selected.
pub type TaskRow = (String, String, String, String, i64, Option<i64>, Option<String>);

impl Task {
    /// The run of a row.
    pub fn from_row(row: TaskRow) -> (r: Task)
        ensures
            r@ == (TaskView {
                run_id: row.0@,
                agent: row.1@,
                session_id: row.2@,
                status: row.3@,
                started_at: row.4,
                completed_at: row.5,
                error: opt(row.6),
            }),
    {
        Task {
            run_id: row.0,
            agent: row.1,
            session_id: row.2,
            status: row.3,
            started_at: row.4,
            completed_at: row.5,
            error: row.6,
        }
    }
}

/// How a run ended.
#[derive(Debug)]
pub enum RunEnd {
    Complete,
    Failed(String),
    Cancelled,
}

impl RunEnd {
    /// The status that is recorded, and the error with it.
    pub open spec fn recorded(self) -> (Seq<char>, Option<Seq<char>>) {
        match self {
            RunEnd::Complete => ("complete"@, None),
            RunEnd::Failed(error) => ("error"@, Some(error@)),
            RunEnd::Cancelled => ("cancelled"@, None),
        }
    }

    /// The status that is recorded, and the error with it.
    pub fn record(&self) -> (r: (String, Option<String>))
        ensures
            r.0@ == (match self {
                RunEnd::Complete => "complete"@,
                RunEnd::Failed(_) => "error"@,
                RunEnd::Cancelled => "cancelled"@,
            }),
            opt(r.1) == (match self {
                RunEnd::Failed(error) => Some(error@),
                _ => None,
            }),
            (r.0@, opt(r.1)) == self.recorded(),
    {
        match self {
            RunEnd::Complete => (owned("complete"), None),
            RunEnd::Failed(error) => (owned("error"), Some(error.clone())),
            RunEnd::Cancelled => (owned("cancelled"), None),
        }
    }
}

/// A run is recorded as it ended, and an error is kept with a run that failed, and only
/// with such a run.
pub proof fn runs_are_recorded_as_they_ended(end: RunEnd)
    ensures
        end is Complete ==> end.recorded().0 == "complete"@ && end.recorded().1 is None,
        end is Cancelled ==> end.recorded().0 == "cancelled"@ && end.recorded().1 is None,
        end matches RunEnd::Failed(error) ==> end.recorded().0 == "error"@ && end.recorded().1
            == Some(error@),
{
}

} // verus!
