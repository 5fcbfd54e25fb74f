//! Scheduled jobs.
use vstd::prelude::*;

use crate::text::opt;

verus! {

/// A scheduled job.
#[derive(Debug)]
pub struct Job {
    pub id: String,
    pub agent_id: String,
    pub schedule: String,
    pub timezone: Option<String>,
    pub session_mode: String,
    pub prompt: String,
    pub target_channel: Option<String>,
    pub target_peer: Option<String>,
    pub enabled: bool,
    pub next_run_at: Option<i64>,
    pub last_run_at: Option<i64>,
    pub created_at: i64,
}

/// What a job says.
pub struct JobView {
    pub id: Seq<char>,
    pub agent_id: Seq<char>,
    pub schedule: Seq<char>,
    pub timezone: Option<Seq<char>>,
    pub session_mode: Seq<char>,
    pub prompt: Seq<char>,
    pub target_channel: Option<Seq<char>>,
    pub target_peer: Option<Seq<char>>,
    pub enabled: bool,
    pub next_run_at: Option<i64>,
    pub last_run_at: Option<i64>,
    pub created_at: i64,
}

impl View for Job {
    type V = JobView;

    open spec fn view(&self) -> JobView {
        JobView {
            id: self.id@,
            agent_id: self.agent_id@,
            schedule: self.schedule@,
            timezone: opt(self.timezone),
            session_mode: self.session_mode@,
            prompt: self.prompt@,
            target_channel: opt(self.target_channel),
            target_peer: opt(self.target_peer),
            enabled: self.enabled,
            next_run_at: self.next_run_at,
            last_run_at: self.last_run_at,
            created_at: self.created_at,
        }
    }
}

/// The columns of a job's row, in the order in which they are selected.
pub type JobRow = (
    String,
    String,
    String,
    Option<String>,
    String,
    String,
    Option<String>,
    Option<String>,
    i32,
    Option<i64>,
    Option<i64>,
    i64,
);

impl Job {
    /// The job of a row. A job is enabled where the column is not zero.
    pub fn from_row(row: JobRow) -> (r: Job)
        ensures
            r@ == (JobView {
                id: row.0@,
                agent_id: row.1@,
                schedule: row.2@,
                timezone: opt(row.3),
                session_mode: row.4@,
                prompt: row.5@,
                target_channel: opt(row.6),
                target_peer: opt(row.7),
                enabled: row.8 != 0,
                next_run_at: row.9,
                last_run_at: row.10,
                created_at: row.11,
            }),
    {
        Job {
            id: row.0,
            agent_id: row.1,
            schedule: row.2,
            timezone: row.3,
            session_mode: row.4,
            prompt: row.5,
            target_channel: row.6,
            target_peer: row.7,
            enabled: row.8 != 0,
            next_run_at: row.9,
            last_run_at: row.10,
            created_at: row.11,
        }
    }
}

} // verus!
