//! Requests for approval of tool calls.
use vstd::prelude::*;


verus! {

/// A request for approval.
#[derive(Debug)]
pub struct Approval {
    pub id: String,
    pub agent_id: String,
    pub session_id: String,
    pub tool: String,
    pub arguments: String,
    pub arguments_hash: String,
    pub status: String,
    pub created_at: i64,
    pub expires_at: i64,
    pub resolved_at: Option<i64>,
}

/// What a request says.
pub struct ApprovalView {
    pub id: Seq<char>,
    pub agent_id: Seq<char>,
    pub session_id: Seq<char>,
    pub tool: Seq<char>,
    pub arguments: Seq<char>,
    pub arguments_hash: Seq<char>,
    pub status: Seq<char>,
    pub created_at: i64,
    pub expires_at: i64,
    pub resolved_at: Option<i64>,
}

impl View for Approval {
    type V = ApprovalView;

    open spec fn view(&self) -> ApprovalView {
        ApprovalView {
            id: self.id@,
            agent_id: self.agent_id@,
            session_id: self.session_id@,
            tool: self.tool@,
            arguments: self.arguments@,
            arguments_hash: self.arguments_hash@,
            status: self.status@,
            created_at: self.created_at,
            expires_at: self.expires_at,
            resolved_at: self.resolved_at,
        }
    }
}

/// The columns of a request's row, in the order in which they are selected.
pub type ApprovalRow = (
    String,
    String,
    String,
    String,
    String,
    String,
    String,
    i64,
    i64,
    Option<i64>,
);

impl Approval {
    /// The request of a row.
    pub fn from_row(row: ApprovalRow) -> (r: Approval)
        ensures
            r@ == (ApprovalView {
                id: row.0@,
                agent_id: row.1@,
                session_id: row.2@,
                tool: row.3@,
                arguments: row.4@,
                arguments_hash: row.5@,
                status: row.6@,
                created_at: row.7,
                expires_at: row.8,
                resolved_at: row.9,
            }),
    {
        Approval {
            id: row.0,
            agent_id: row.1,
            session_id: row.2,
            tool: row.3,
            arguments: row.4,
            arguments_hash: row.5,
            status: row.6,
            created_at: row.7,
            expires_at: row.8,
            resolved_at: row.9,
        }
    }
}

/// When something that begins now ends, that lasts so many seconds.
pub fn expiry(now: i64, seconds: i64) -> (r: i64)
    requires
        i64::MIN <= now + seconds <= i64::MAX,
    ensures
        r == now + seconds,
{
    now + seconds
}

} // verus!
