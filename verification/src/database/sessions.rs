//! Sessions and their messages.
use vstd::prelude::*;

use crate::text::{cat3, opt, owned};

verus! {

/// A conversation of an agent with a peer on a channel.
#[derive(Debug)]
pub struct Session {
    pub id: String,
    pub agent_id: String,
    pub channel: String,
    pub peer_id: String,
    pub thread_id: Option<String>,
    pub created_at: i64,
    pub updated_at: i64,
    pub compacted: bool,
    pub summary: Option<String>,
}

/// What a session says.
pub struct SessionView {
    pub id: Seq<char>,
    pub agent_id: Seq<char>,
    pub channel: Seq<char>,
    pub peer_id: Seq<char>,
    pub thread_id: Option<Seq<char>>,
    pub created_at: i64,
    pub updated_at: i64,
    pub compacted: bool,
    pub summary: Option<Seq<char>>,
}

impl SessionView {
    /// The key that a session is gone on with by, and that its workspace is named by:
    /// the thread, where it has one, else the id.
    pub open spec fn key(self) -> Seq<char> {
        match self.thread_id {
            Some(thread) => if thread.len() > 0 {
                thread
            } else {
                self.id
            },
            None => self.id,
        }
    }
}

impl View for Session {
    type V = SessionView;

    open spec fn view(&self) -> SessionView {
        SessionView {
            id: self.id@,
            agent_id: self.agent_id@,
            channel: self.channel@,
            peer_id: self.peer_id@,
            thread_id: opt(self.thread_id),
            created_at: self.created_at,
            updated_at: self.updated_at,
            compacted: self.compacted,
            summary: opt(self.summary),
        }
    }
}

/// A message of a session.
#[derive(Debug)]
pub struct Message {
    pub id: String,
    pub session_id: String,
    pub role: String,
    pub content: String,
    pub attachments: Option<String>,
    pub tool_call_id: Option<String>,
    pub tool_calls: Option<String>,
    pub created_at: i64,
    pub tokens: Option<i32>,
}

/// What a message says.
pub struct RecordView {
    pub id: Seq<char>,
    pub session_id: Seq<char>,
    pub role: Seq<char>,
    pub content: Seq<char>,
    pub attachments: Option<Seq<char>>,
    pub tool_call_id: Option<Seq<char>>,
    pub tool_calls: Option<Seq<char>>,
    pub created_at: i64,
    pub tokens: Option<i32>,
}

impl View for Message {
    type V = RecordView;

    open spec fn view(&self) -> RecordView {
        RecordView {
            id: self.id@,
            session_id: self.session_id@,
            role: self.role@,
            content: self.content@,
            attachments: opt(self.attachments),
            tool_call_id: opt(self.tool_call_id),
            tool_calls: opt(self.tool_calls),
            created_at: self.created_at,
            tokens: self.tokens,
        }
    }
}

/// The columns of a session's row, in the order in which they are selected.
pub type SessionRow = (
    String,
    String,
    String,
    String,
    Option<String>,
    i64,
    i64,
    i32,
    Option<String>,
);

/// The columns of a message's row, in the order in which they are selected.
pub type MessageRow = (
    String,
    String,
    String,
    String,
    Option<String>,
    Option<String>,
    Option<String>,
    i64,
    Option<i32>,
);

impl Session {
    /// A session that begins now.
    pub fn begin(
        id: &str,
        agent_id: &str,
        channel: &str,
        peer_id: &str,
        thread_id: Option<&str>,
        now: i64,
    ) -> (r: Session)
        ensures
            r@ == (SessionView {
                id: id@,
                agent_id: agent_id@,
                channel: channel@,
                peer_id: peer_id@,
                thread_id: match thread_id {
                    Some(t) => Some(t@),
                    None => None,
                },
                created_at: now,
                updated_at: now,
                compacted: false,
                summary: None,
            }),
    {
        Session {
            id: owned(id),
            agent_id: owned(agent_id),
            channel: owned(channel),
            peer_id: owned(peer_id),
            thread_id: match thread_id {
                Some(t) => Some(owned(t)),
                None => None,
            },
            created_at: now,
            updated_at: now,
            compacted: false,
            summary: None,
        }
    }

    /// The key that a session is gone on with by, and that its workspace is named by.
    pub fn key(&self) -> (r: String)
        ensures
            r@ == self@.key(),
    {
        match &self.thread_id {
            Some(thread) => if thread.as_str().is_empty() {
                self.id.clone()
            } else {
                thread.clone()
            },
            None => self.id.clone(),
        }
    }

    /// The session of a row. A session is compacted where the column is not zero.
    pub fn from_row(row: SessionRow) -> (r: Session)
        ensures
            r@ == (SessionView {
                id: row.0@,
                agent_id: row.1@,
                channel: row.2@,
                peer_id: row.3@,
                thread_id: opt(row.4),
                created_at: row.5,
                updated_at: row.6,
                compacted: row.7 != 0,
                summary: opt(row.8),
            }),
    {
        Session {
            id: row.0,
            agent_id: row.1,
            channel: row.2,
            peer_id: row.3,
            thread_id: row.4,
            created_at: row.5,
            updated_at: row.6,
            compacted: row.7 != 0,
            summary: row.8,
        }
    }
}

/// The thread that a session is filed under: the empty one where none is given.
pub fn thread_key(thread_id: Option<&str>) -> (r: String)
    ensures
        r@ == (match thread_id {
            Some(t) => t@,
            None => Seq::empty(),
        }),
{
    match thread_id {
        Some(t) => owned(t),
        None => {
            let r = String::new();
            proof {
                assert(r@ =~= Seq::empty());
            }
            r
        },
    }
}

impl Message {
    /// The message of a row.
    pub fn from_row(row: MessageRow) -> (r: Message)
        ensures
            r@ == (RecordView {
                id: row.0@,
                session_id: row.1@,
                role: row.2@,
                content: row.3@,
                attachments: opt(row.4),
                tool_call_id: opt(row.5),
                tool_calls: opt(row.6),
                created_at: row.7,
                tokens: row.8,
            }),
    {
        Message {
            id: row.0,
            session_id: row.1,
            role: row.2,
            content: row.3,
            attachments: row.4,
            tool_call_id: row.5,
            tool_calls: row.6,
            created_at: row.7,
            tokens: row.8,
        }
    }
}

/// A summary with a later one behind it, a blank line between the two; an absent
/// or empty one is replaced.
pub open spec fn summed_up(old: Option<Seq<char>>, new: Seq<char>) -> Seq<char> {
    match old {
        Some(s) => if s.len() == 0 {
            new
        } else {
            s + "\n\n"@ + new
        },
        None => new,
    }
}

/// The summary of a session after one more part of it was summed up.
pub fn append_summary(old: Option<&str>, new: &str) -> (r: String)
    ensures
        r@ == summed_up(
            match old {
                Some(s) => Some(s@),
                None => None,
            },
            new@,
        ),
{
    match old {
        Some(s) => if s.is_empty() {
            owned(new)
        } else {
            cat3(s, "\n\n", new)
        },
        None => owned(new),
    }
}

/// A summary keeps what was summed up before, and puts what is new behind it, after a
/// blank line; the first summary stands alone.
pub proof fn summaries_grow(old_summary: Option<Seq<char>>, new: Seq<char>)
    ensures
        old_summary matches Some(s) && s.len() > 0 ==> summed_up(old_summary, new)
            == old_summary->0 + "\n\n"@ + new,
        (old_summary matches Some(s) ==> s.len() == 0) ==> summed_up(old_summary, new) == new,
{
}

/// A session is gone on with by its thread where it has one, else by its id.
pub proof fn sessions_have_a_key(session: SessionView)
    ensures
        session.thread_id matches Some(t) && t.len() > 0 ==> session.key() == session.thread_id->0,
        (session.thread_id matches Some(t) ==> t.len() == 0) ==> session.key() == session.id,
{
}

} // verus!
