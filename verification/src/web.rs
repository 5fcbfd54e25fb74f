//! The web interface: chats, approvals, and what is known of the server.
use std::sync::atomic::AtomicBool;
use std::sync::Arc;
use vstd::prelude::*;

use crate::agent::{place_of, AgentRequest, Attachment, RequestView};
use crate::database::sessions::SessionView;
use crate::numbers::{dec, decimal_reads_back, is_digit, parse_u64, unsigned_value};
use crate::text::{
    begins, cat4, is_space, line_list, lines, opt, owned, printing_characters_are_no_space,
    starts_with, str_eq, texts, trim, trimmed, word_list, words,
    words_are_kept_apart_by_white_space,
};
use crate::value::{lemma_lookup_push, no_fields, Data, Fields, Json};
use crate::workspace::Refusal;

verus! {

/// A chat message of a user.
#[derive(Debug)]
pub struct ChatRequest {
    pub message: String,
    pub agent: Option<String>,
    pub peer_id: Option<String>,
    pub provider: Option<String>,
    pub session_id: Option<String>,
}

/// The answer to a chat message: the run goes on in the background.
#[derive(Debug)]
pub struct ChatResponse {
    pub run_id: String,
    pub agent: String,
    pub session_id: String,
    pub status: String,
}

/// A decision on a request for approval.
#[derive(Debug)]
pub struct ApprovalRequest {
    pub approval_id: String,
}

/// A file that is asked for.
#[derive(Debug)]
pub struct FileRequest {
    pub path: String,
    pub session: Option<String>,
}

/// A file that is to be written.
#[derive(Debug)]
pub struct FileWriteRequest {
    pub path: String,
    pub content: String,
    pub append: Option<bool>,
    pub session: Option<String>,
}

/// The files that are asked for.
#[derive(Debug)]
pub struct ListFilesRequest {
    pub session: Option<String>,
}

/// The session that is asked for.
#[derive(Debug)]
pub struct SessionRequest {
    pub agent: Option<String>,
    pub peer: Option<String>,
}

/// A text, or another.
pub open spec fn text_or(given: Option<String>, otherwise: Seq<char>) -> Seq<char> {
    match given {
        Some(s) => s@,
        None => otherwise,
    }
}

/// A text, or another.
fn given_or(given: &Option<String>, otherwise: &str) -> (r: String)
    ensures
        r@ == text_or(*given, otherwise@),
{
    match given {
        Some(s) => s.clone(),
        None => owned(otherwise),
    }
}

/// The agent that a chat goes to: the main one where none is given.
pub fn chat_agent(req: &ChatRequest) -> (r: String)
    ensures
        r@ == text_or(req.agent, "main"@),
{
    given_or(&req.agent, "main")
}

/// Who chats: somebody unknown where nobody is given.
pub fn chat_peer(req: &ChatRequest) -> (r: String)
    ensures
        r@ == text_or(req.peer_id, "anonymous"@),
{
    given_or(&req.peer_id, "anonymous")
}

/// The session that a chat goes on with: the one that is given, where it is not
/// blank, else a fresh one.
pub open spec fn session_key(req: ChatRequest, fresh: Seq<char>) -> Seq<char> {
    match req.session_id {
        Some(s) => if trimmed(s@).len() > 0 {
            s@
        } else {
            "web:"@ + text_or(req.agent, "main"@) + ":"@ + fresh
        },
        None => "web:"@ + text_or(req.agent, "main"@) + ":"@ + fresh,
    }
}

/// The session that a chat goes on with. `fresh` is an id that was not used
/// before.
pub fn chat_session(req: &ChatRequest, fresh: &str) -> (r: String)
    ensures
        r@ == session_key(*req, fresh@),
{
    match &req.session_id {
        Some(s) => {
            if !trim(s.as_str()).as_str().is_empty() {
                return s.clone();
            }
        },
        None => {},
    }
    cat4("web:", chat_agent(req).as_str(), ":", fresh)
}

/// The model profile for a provider, where it has one of its own.
pub open spec fn profile_for(provider: Option<Seq<char>>) -> Option<Seq<char>> {
    match provider {
        Some(p) => if p == "nvidia"@ {
            Some("nvidia"@)
        } else if p == "groq"@ {
            Some("groq"@)
        } else if p == "opencode"@ {
            Some("fast"@)
        } else {
            None
        },
        None => None,
    }
}

/// The model profile for a provider, where it has one of its own.
pub fn model_profile(provider: &Option<String>) -> (r: Option<String>)
    ensures
        opt(r) == profile_for(opt(*provider)),
{
    match provider {
        Some(p) => if str_eq(p.as_str(), "nvidia") {
            Some(owned("nvidia"))
        } else if str_eq(p.as_str(), "groq") {
            Some(owned("groq"))
        } else if str_eq(p.as_str(), "opencode") {
            Some(owned("fast"))
        } else {
            None
        },
        None => None,
    }
}

/// What an agent is asked for a chat message.
pub open spec fn chat_request_view(
    req: ChatRequest,
    key: Seq<char>,
    run_id: Seq<char>,
    cancel: Arc<AtomicBool>,
) -> RequestView {
    RequestView {
        agent_id: text_or(req.agent, "main"@),
        session_id: key,
        channel: "web"@,
        peer_id: text_or(req.peer_id, "anonymous"@),
        content: req.message@,
        attachments: seq![],
        run_id: Some(run_id),
        model_profile: profile_for(opt(req.provider)),
        cancel_token: Some(cancel),
    }
}

/// What an agent is asked for a chat message, in that session.
pub fn chat_request(req: ChatRequest, key: &str, run_id: &str, cancel: Arc<AtomicBool>) -> (r:
    AgentRequest)
    ensures
        r@ == chat_request_view(req, key@, run_id@, cancel),
{
    let attachments: Vec<Attachment> = Vec::new();
    proof {
        assert(attachments@ =~= seq![]);
    }
    AgentRequest {
        agent_id: chat_agent(&req),
        session_id: owned(key),
        channel: owned("web"),
        peer_id: chat_peer(&req),
        model_profile: model_profile(&req.provider),
        content: req.message,
        attachments,
        run_id: Some(owned(run_id)),
        cancel_token: Some(cancel),
    }
}

/// The answer to a chat message.
pub fn chat_response(run_id: &str, agent: &str, key: &str) -> (r: ChatResponse)
    ensures
        r.run_id@ == run_id@,
        r.agent@ == agent@,
        r.session_id@ == key@,
        r.status@ == "running"@,
{
    ChatResponse {
        run_id: owned(run_id),
        agent: owned(agent),
        session_id: owned(key),
        status: owned("running"),
    }
}

/// A session that is given back is gone on with: a chat that passes the session
/// of an earlier answer goes on in that session.
pub proof fn sessions_are_resumed(first: ChatRequest, next: ChatRequest, a: Seq<char>, b: Seq<char>)
    requires
        next.session_id matches Some(s) && s@ == session_key(first, a),
    ensures
        session_key(next, b) == session_key(first, a),
{
    match first.session_id {
        Some(s) => {
            if trimmed(s@).len() > 0 {
            } else {
                lemma_fresh_key(text_or(first.agent, "main"@), a);
            }
        },
        None => {
            lemma_fresh_key(text_or(first.agent, "main"@), a);
        },
    }
}

/// Every chat without a session gets one of its own: two chats of one agent and one
/// peer that are given different fresh ids have different sessions, and the messages
/// of their runs are stored in different places.
pub proof fn fresh_sessions_differ(
    first: ChatRequest,
    next: ChatRequest,
    a: Seq<char>,
    b: Seq<char>,
    first_run: Seq<char>,
    next_run: Seq<char>,
    first_cancel: Arc<AtomicBool>,
    next_cancel: Arc<AtomicBool>,
)
    requires
        first.session_id is None,
        next.session_id is None,
        text_or(first.agent, "main"@) == text_or(next.agent, "main"@),
        a != b,
    ensures
        session_key(first, a) != session_key(next, b),
        place_of(chat_request_view(first, session_key(first, a), first_run, first_cancel))
            != place_of(chat_request_view(next, session_key(next, b), next_run, next_cancel)),
{
    let front = "web:"@ + text_or(first.agent, "main"@) + ":"@;
    let n = front.len() as int;
    assert(session_key(first, a).skip(n) =~= a);
    assert(session_key(next, b).skip(n) =~= b);
}

/// The session that a chat is answered with is the one that its run is stored in and
/// that its workspace is named by: a session filed under the thread of the run has that
/// key.
pub proof fn chats_keep_their_workspace(
    req: ChatRequest,
    fresh: Seq<char>,
    run_id: Seq<char>,
    cancel: Arc<AtomicBool>,
    session: SessionView,
)
    requires
        session.thread_id == place_of(
            chat_request_view(req, session_key(req, fresh), run_id, cancel),
        ).thread_id,
    ensures
        session.key() == session_key(req, fresh),
{
    reveal_strlit("web:");
    assert(session_key(req, fresh).len() > 0);
}

/// A fresh session is not blank.
proof fn lemma_fresh_key(agent: Seq<char>, id: Seq<char>)
    ensures
        trimmed("web:"@ + agent + ":"@ + id).len() > 0,
{
    reveal_strlit("web:");
    let s = "web:"@ + agent + ":"@ + id;
    assert(s[0] == 'w');
    assert(!crate::text::is_space('w'));
    assert(crate::text::trim_start(s) == s);
    lemma_trim_end_keeps(s);
}

/// A text that begins with something that is no space does not become empty when
/// trailing space is taken off.
proof fn lemma_trim_end_keeps(s: Seq<char>)
    requires
        s.len() > 0,
        !crate::text::is_space(s[0]),
    ensures
        crate::text::trim_end(s).len() > 0,
    decreases s.len(),
{
    if crate::text::is_space(s.last()) {
        assert(s.len() > 1);
        assert(s.drop_last()[0] == s[0]);
        lemma_trim_end_keeps(s.drop_last());
    }
}

/// A message of the user, as it is told.
pub open spec fn user_event_tree(agent: Seq<char>, run_id: Seq<char>, content: Seq<char>) -> Json {
    Json::Table(
        no_fields().push(("type"@, Json::Str("user_message"@))).push(
            ("agent"@, Json::Str(agent)),
        ).push(("run_id"@, Json::Str(run_id))).push(("content"@, Json::Str(content))),
    )
}

/// The event that a user has written.
pub fn user_event(agent: &str, run_id: &str, content: &str) -> (r: Data)
    ensures
        r@ == Json::Table(
            no_fields().push(("type"@, Json::Str("user_message"@))).push(
                ("agent"@, Json::Str(agent@)),
            ).push(("run_id"@, Json::Str(run_id@))).push(("content"@, Json::Str(content@))),
        ),
        r@ == user_event_tree(agent@, run_id@, content@),
{
    let mut f = Fields::new();
    f.put_str("type", "user_message");
    f.put_str("agent", agent);
    f.put_str("run_id", run_id);
    f.put_str("content", content);
    f.done()
}

/// An answer, as it is told.
pub open spec fn answer_event_tree(
    agent: Seq<char>,
    run_id: Seq<char>,
    content: Seq<char>,
    tool_calls: int,
) -> Json {
    Json::Table(
        no_fields().push(("type"@, Json::Str("agent_response"@))).push(
            ("agent"@, Json::Str(agent)),
        ).push(("run_id"@, Json::Str(run_id))).push(("content"@, Json::Str(content))).push(
            ("tool_calls"@, Json::Num(tool_calls)),
        ),
    )
}

/// The event that an agent has answered.
pub fn answer_event(agent: &str, run_id: &str, content: &str, tool_calls: usize) -> (r: Data)
    ensures
        r@ == Json::Table(
            no_fields().push(("type"@, Json::Str("agent_response"@))).push(
                ("agent"@, Json::Str(agent@)),
            ).push(("run_id"@, Json::Str(run_id@))).push(("content"@, Json::Str(content@))).push(
                ("tool_calls"@, Json::Num(tool_calls as int)),
            ),
        ),
        r@ == answer_event_tree(agent@, run_id@, content@, tool_calls as int),
{
    let mut f = Fields::new();
    f.put_str("type", "agent_response");
    f.put_str("agent", agent);
    f.put_str("run_id", run_id);
    f.put_str("content", content);
    f.put_uint("tool_calls", tool_calls as u64);
    f.done()
}

/// A failure, as it is told.
pub open spec fn error_event_tree(agent: Seq<char>, run_id: Seq<char>, error: Seq<char>) -> Json {
    Json::Table(
        no_fields().push(("type"@, Json::Str("run_error"@))).push(
            ("agent"@, Json::Str(agent)),
        ).push(("run_id"@, Json::Str(run_id))).push(("error"@, Json::Str(error))),
    )
}

/// The event that a run has failed.
pub fn error_event(agent: &str, run_id: &str, error: &str) -> (r: Data)
    ensures
        r@ == Json::Table(
            no_fields().push(("type"@, Json::Str("run_error"@))).push(
                ("agent"@, Json::Str(agent@)),
            ).push(("run_id"@, Json::Str(run_id@))).push(("error"@, Json::Str(error@))),
        ),
        r@ == error_event_tree(agent@, run_id@, error@),
{
    let mut f = Fields::new();
    f.put_str("type", "run_error");
    f.put_str("agent", agent);
    f.put_str("run_id", run_id);
    f.put_str("error", error);
    f.done()
}

/// A cancellation, as it is told.
pub open spec fn cancelled_event_tree(run_id: Seq<char>) -> Json {
    Json::Table(
        no_fields().push(("type"@, Json::Str("run_cancelled"@))).push(
            ("run_id"@, Json::Str(run_id)),
        ),
    )
}

/// The event that a run was cancelled by request.
pub fn cancelled_event(run_id: &str) -> (r: Data)
    ensures
        r@ == Json::Table(
            no_fields().push(("type"@, Json::Str("run_cancelled"@))).push(
                ("run_id"@, Json::Str(run_id@)),
            ),
        ),
        r@ == cancelled_event_tree(run_id@),
{
    let mut f = Fields::new();
    f.put_str("type", "run_cancelled");
    f.put_str("run_id", run_id);
    f.done()
}

/// A token, as it is told.
pub open spec fn token_event_tree(
    run_id: Seq<char>,
    session_id: Seq<char>,
    token: Seq<char>,
) -> Json {
    Json::Table(
        no_fields().push(("type"@, Json::Str("session.token"@))).push(
            ("run_id"@, Json::Str(run_id)),
        ).push(("session_id"@, Json::Str(session_id))).push(("token"@, Json::Str(token))),
    )
}

/// The event that a piece of a reply has come.
pub fn token_event(run_id: &str, session_id: &str, token: &str) -> (r: Data)
    ensures
        r@ == Json::Table(
            no_fields().push(("type"@, Json::Str("session.token"@))).push(
                ("run_id"@, Json::Str(run_id@)),
            ).push(("session_id"@, Json::Str(session_id@))).push(("token"@, Json::Str(token@))),
        ),
        r@ == token_event_tree(run_id@, session_id@, token@),
{
    let mut f = Fields::new();
    f.put_str("type", "session.token");
    f.put_str("run_id", run_id);
    f.put_str("session_id", session_id);
    f.put_str("token", token);
    f.done()
}

/// A status as an answer.
pub open spec fn status_tree(status: Seq<char>) -> Json {
    Json::Table(no_fields().push(("status"@, Json::Str(status))))
}

/// A status as an answer.
pub fn status_response(status: &str) -> (r: Data)
    ensures
        r@ == status_tree(status@),
{
    let mut f = Fields::new();
    f.put_str("status", status);
    f.done()
}

/// An event and an answer.
#[derive(Debug)]
pub struct Notice {
    pub event: Data,
    pub answer: Data,
}

/// What a decision on a request for approval comes to: the event and the answer, or the
/// refusal.
pub open spec fn decision(id: Seq<char>, approved: bool, changed: Option<bool>) -> Result<
    (Json, Json),
    Refusal,
> {
    match changed {
        Some(true) => Ok(
            (
                Json::Table(
                    no_fields().push(
                        (
                            "type"@,
                            Json::Str(
                                if approved {
                                    "approval_granted"@
                                } else {
                                    "approval_denied"@
                                },
                            ),
                        ),
                    ).push(("approval_id"@, Json::Str(id))),
                ),
                status_tree(
                    if approved {
                        "approved"@
                    } else {
                        "denied"@
                    },
                ),
            ),
        ),
        Some(false) => Err(Refusal::NotFound),
        None => Err(Refusal::Internal),
    }
}

/// A decision that was recorded is told as what it was, to the one who decided and to
/// those who listen; one on a request that was not open is not found; and one that could
/// not be recorded is told to nobody.
pub proof fn decisions_are_told(id: Seq<char>)
    ensures
        decision(id, true, Some(true)) matches Ok((event, answer)) && event.at("type"@)
            == Json::Str("approval_granted"@) && event.at("approval_id"@) == Json::Str(id)
            && answer.at("status"@) == Json::Str("approved"@),
        decision(id, false, Some(true)) matches Ok((event, answer)) && event.at("type"@)
            == Json::Str("approval_denied"@) && event.at("approval_id"@) == Json::Str(id)
            && answer.at("status"@) == Json::Str("denied"@),
        forall|approved: bool| #[trigger]
            decision(id, approved, Some(false)) == Err::<(Json, Json), Refusal>(Refusal::NotFound),
        forall|approved: bool| #[trigger]
            decision(id, approved, None) == Err::<(Json, Json), Refusal>(Refusal::Internal),
{
    broadcast use lemma_lookup_push;

    reveal_strlit("type");
    reveal_strlit("approval_id");
    assert("type"@.len() == 4 && "approval_id"@.len() == 11);
}

/// What a decision on a request for approval comes to: an event and an answer
/// where it was still open; else it is not found. `changed` is whether the
/// decision was recorded, or nothing where that failed.
pub fn decide_approval(approval_id: &str, approved: bool, changed: Option<bool>) -> (r: Result<
    Notice,
    Refusal,
>)
    ensures
        match changed {
            Some(true) => r matches Ok(n) && n.event@ == Json::Table(
                no_fields().push(
                    (
                        "type"@,
                        Json::Str(
                            if approved {
                                "approval_granted"@
                            } else {
                                "approval_denied"@
                            },
                        ),
                    ),
                ).push(("approval_id"@, Json::Str(approval_id@))),
            ) && n.answer@ == status_tree(
                if approved {
                    "approved"@
                } else {
                    "denied"@
                },
            ),
            Some(false) => r == Err::<Notice, Refusal>(Refusal::NotFound),
            None => r == Err::<Notice, Refusal>(Refusal::Internal),
        },
        match decision(approval_id@, approved, changed) {
            Ok((event, answer)) => r matches Ok(n) && n.event@ == event && n.answer@ == answer,
            Err(refusal) => r == Err::<Notice, Refusal>(refusal),
        },
{
    match changed {
        Some(true) => {
            let mut f = Fields::new();
            f.put_str(
                "type",
                if approved {
                    "approval_granted"
                } else {
                    "approval_denied"
                },
            );
            f.put_str("approval_id", approval_id);
            Ok(
                Notice {
                    event: f.done(),
                    answer: status_response(
                        if approved {
                            "approved"
                        } else {
                            "denied"
                        },
                    ),
                },
            )
        },
        Some(false) => Err(Refusal::NotFound),
        None => Err(Refusal::Internal),
    }
}

/// How the server is.
pub open spec fn health_response_tree(version: Seq<char>) -> Json {
    Json::Table(
        no_fields().push(("status"@, Json::Str("ok"@))).push(
            ("version"@, Json::Str(version)),
        ),
    )
}

/// That the server is well.
pub fn health_response(version: &str) -> (r: Data)
    ensures
        r@ == Json::Table(
            no_fields().push(("status"@, Json::Str("ok"@))).push(
                ("version"@, Json::Str(version@)),
            ),
        ),
        r@ == health_response_tree(version@),
{
    let mut f = Fields::new();
    f.put_str("status", "ok");
    f.put_str("version", version);
    f.done()
}

/// What the server needs.
pub open spec fn metrics_response_tree(memory_kb: int, pid: int, version: Seq<char>) -> Json {
    Json::Table(
        no_fields().push(("memory_kb"@, Json::Num(memory_kb))).push(
            ("pid"@, Json::Num(pid)),
        ).push(("version"@, Json::Str(version))),
    )
}

/// What is known of the server's process.
pub fn metrics_response(memory_kb: u64, pid: u32, version: &str) -> (r: Data)
    ensures
        r@ == Json::Table(
            no_fields().push(("memory_kb"@, Json::Num(memory_kb as int))).push(
                ("pid"@, Json::Num(pid as int)),
            ).push(("version"@, Json::Str(version@))),
        ),
        r@ == metrics_response_tree(memory_kb as int, pid as int, version@),
{
    let mut f = Fields::new();
    f.put_uint("memory_kb", memory_kb);
    f.put_uint("pid", pid as u64);
    f.put_str("version", version);
    f.done()
}

/// The number behind the name of a line, or zero where it is none.
pub open spec fn line_number(line: Seq<char>) -> Option<nat> {
    let parts = word_list(line);
    if parts.len() > 1 {
        match unsigned_value(parts[1], u64::MAX as nat) {
            Some(n) => Some(n),
            None => Some(0),
        }
    } else {
        None
    }
}

/// The memory that a process uses, in kilobytes, as its status tells: the number
/// in the first line for it that has one, or zero.
pub open spec fn memory_in(rows: Seq<Seq<char>>) -> nat
    decreases rows.len(),
{
    if rows.len() == 0 {
        0
    } else if begins(rows[0], "VmRSS:"@) && line_number(rows[0]) is Some {
        line_number(rows[0])->0
    } else {
        memory_in(rows.drop_first())
    }
}

/// The memory that a process uses, as its status tells.
pub fn memory_usage(status: &str) -> (r: u64)
    ensures
        r == memory_in(line_list(status@)),
{
    let rows = lines(status);
    let ghost all = line_list(status@);
    let mut i: usize = 0;
    proof {
        assert(all.skip(0) =~= all);
    }
    while i < rows.len()
        invariant
            i <= rows@.len(),
            all == texts(rows@),
            all == line_list(status@),
            memory_in(all) == memory_in(all.skip(i as int)),
        decreases rows@.len() - i,
    {
        proof {
            assert(all.skip(i as int)[0] == rows@[i as int]@);
            assert(all.skip(i as int).drop_first() =~= all.skip(i + 1));
        }
        if starts_with(rows[i].as_str(), "VmRSS:") {
            let parts = words(rows[i].as_str());
            proof {
                assert(word_list(rows@[i as int]@).len() == parts@.len());
            }
            if parts.len() > 1 {
                proof {
                    assert(word_list(rows@[i as int]@)[1] == parts@[1]@);
                    assert(line_number(rows@[i as int]@) is Some);
                    assert(memory_in(all.skip(i as int)) == line_number(rows@[i as int]@)->0);
                }
                return match parse_u64(parts[1].as_str()) {
                    Some(n) => n,
                    None => 0,
                };
            }
        }
        i = i + 1;
    }
    0
}

/// The agent and the peer of a session that is asked for.
pub fn session_parties(req: &SessionRequest) -> (r: (String, String))
    ensures
        r.0@ == text_or(req.agent, "main"@),
        r.1@ == text_or(req.peer, "web-user"@),
{
    (given_or(&req.agent, "main"), given_or(&req.peer, "web-user"))
}

/// A session, as it is told.
pub open spec fn session_response_tree(
    agent: Seq<char>,
    peer: Seq<char>,
    session_id: Seq<char>,
    workspace: Seq<char>,
) -> Json {
    Json::Table(
        no_fields().push(("agent"@, Json::Str(agent))).push(("peer"@, Json::Str(peer))).push(
            ("session_id"@, Json::Str(session_id)),
        ).push(("workspace"@, Json::Str(workspace))),
    )
}

/// The answer to a request for a session.
pub fn session_response(agent: &str, peer: &str, session_id: &str, workspace: &str) -> (r: Data)
    ensures
        r@ == Json::Table(
            no_fields().push(("agent"@, Json::Str(agent@))).push(("peer"@, Json::Str(peer@))).push(
                ("session_id"@, Json::Str(session_id@)),
            ).push(("workspace"@, Json::Str(workspace@))),
        ),
        r@ == session_response_tree(agent@, peer@, session_id@, workspace@),
{
    let mut f = Fields::new();
    f.put_str("agent", agent);
    f.put_str("peer", peer);
    f.put_str("session_id", session_id);
    f.put_str("workspace", workspace);
    f.done()
}

/// What is written in a chat reaches the agent as it was written, from whom it was
/// written, in the session of the chat: the main agent where none is named, and from
/// somebody unknown where nobody is named. The flag by which the run is cancelled is the
/// one that was given.
pub proof fn chats_reach_the_agent(
    req: ChatRequest,
    key: Seq<char>,
    run_id: Seq<char>,
    cancel: Arc<AtomicBool>,
)
    ensures
        ({
            let r = chat_request_view(req, key, run_id, cancel);
            &&& r.content == req.message@
            &&& r.channel == "web"@
            &&& r.session_id == key
            &&& r.run_id == Some(run_id)
            &&& r.cancel_token == Some(cancel)
            &&& r.attachments.len() == 0
            &&& req.agent matches Some(a) ==> r.agent_id == a@
            &&& req.agent is None ==> r.agent_id == "main"@
            &&& req.peer_id matches Some(p) ==> r.peer_id == p@
            &&& req.peer_id is None ==> r.peer_id == "anonymous"@
            &&& r.model_profile == profile_for(opt(req.provider))
        }),
{
}

/// The providers with a profile of their own get it, and any other provider gets none.
pub proof fn providers_have_their_profile(provider: Seq<char>)
    ensures
        profile_for(Some("nvidia"@)) == Some("nvidia"@),
        profile_for(Some("groq"@)) == Some("groq"@),
        profile_for(Some("opencode"@)) == Some("fast"@),
        provider != "nvidia"@ && provider != "groq"@ && provider != "opencode"@ ==> profile_for(
            Some(provider),
        ) is None,
        profile_for(None) is None,
{
    reveal_strlit("nvidia");
    reveal_strlit("groq");
    reveal_strlit("opencode");
    assert("nvidia"@.len() == 6 && "groq"@.len() == 4 && "opencode"@.len() == 8);
}

/// A chat goes on with the session that it names, unless that is blank; then it gets a
/// fresh one, under the name of its agent.
pub proof fn named_sessions_are_gone_on_with(req: ChatRequest, fresh: Seq<char>)
    ensures
        req.session_id matches Some(s) && trimmed(s@).len() > 0 ==> session_key(req, fresh)
            == req.session_id->0@,
        (req.session_id matches Some(s) ==> trimmed(s@).len() == 0) ==> session_key(req, fresh)
            == "web:"@ + text_or(req.agent, "main"@) + ":"@ + fresh,
{
}

/// The memory of a process is the number in the first line for it, whatever lines stand
/// before and behind.
pub proof fn memory_is_read(front: Seq<Seq<char>>, n: nat, unit: Seq<char>, rest: Seq<Seq<char>>)
    requires
        n <= u64::MAX,
        forall|i: int| 0 <= i < front.len() ==> begins(#[trigger] front[i], "VmRSS:"@) == false,
    ensures
        memory_in(front + seq!["VmRSS:"@ + seq!['\t'] + dec(n) + seq![' '] + unit] + rest) == n,
        memory_in(seq![]) == 0,
    decreases front.len(),
{
    reveal_strlit("VmRSS:");
    let line = "VmRSS:"@ + seq!['\t'] + dec(n) + seq![' '] + unit;
    let all = front + seq![line] + rest;
    if front.len() > 0 {
        let tail = front.drop_first();
        assert(all.drop_first() =~= tail + seq![line] + rest);
        assert(all[0] == front[0]);
        assert forall|i: int| 0 <= i < tail.len() implies begins(#[trigger] tail[i], "VmRSS:"@)
            == false by {
            assert(tail[i] == front[i + 1]);
        }
        memory_is_read(tail, n, unit, rest);
    } else {
        assert(all[0] == line);
        assert(line.subrange(0, 6) =~= "VmRSS:"@);
        assert(begins(line, "VmRSS:"@));
        decimal_reads_back(n);
        printing_characters_are_no_space('\t');
        printing_characters_are_no_space(' ');
        let number = dec(n);
        assert forall|i: int| 0 <= i < number.len() implies !is_space(#[trigger] number[i]) by {
            assert(is_digit(number[i]));
        }
        let name = "VmRSS:"@;
        assert(name[0] == 'V' && name[1] == 'm' && name[2] == 'R' && name[3] == 'S' && name[4]
            == 'S' && name[5] == ':');
        assert forall|i: int| 0 <= i < name.len() implies !is_space(#[trigger] name[i]) by {
            printing_characters_are_no_space(name[i]);
        }
        let behind = number + seq![' '] + unit;
        assert(line =~= name + seq!['\t'] + behind);
        words_are_kept_apart_by_white_space(name, '\t', behind);
        words_are_kept_apart_by_white_space(number, ' ', unit);
        let parts = word_list(line);
        assert(parts == seq![name] + (seq![number] + word_list(unit)));
        assert(parts[1] == number);
    }
}

/// The names of what is said of events differ.
proof fn lemma_event_names()
    ensures
        "type"@ != "agent"@,
        "type"@ != "run_id"@,
        "type"@ != "content"@,
        "type"@ != "tool_calls"@,
        "type"@ != "error"@,
        "type"@ != "session_id"@,
        "type"@ != "token"@,
        "agent"@ != "run_id"@,
        "agent"@ != "content"@,
        "agent"@ != "tool_calls"@,
        "agent"@ != "error"@,
        "agent"@ != "session_id"@,
        "agent"@ != "token"@,
        "run_id"@ != "content"@,
        "run_id"@ != "tool_calls"@,
        "run_id"@ != "error"@,
        "run_id"@ != "session_id"@,
        "run_id"@ != "token"@,
        "content"@ != "tool_calls"@,
        "content"@ != "error"@,
        "content"@ != "session_id"@,
        "content"@ != "token"@,
        "tool_calls"@ != "error"@,
        "tool_calls"@ != "session_id"@,
        "tool_calls"@ != "token"@,
        "error"@ != "session_id"@,
        "error"@ != "token"@,
        "session_id"@ != "token"@,
{
    reveal_strlit("type");
    reveal_strlit("agent");
    reveal_strlit("run_id");
    reveal_strlit("content");
    reveal_strlit("tool_calls");
    reveal_strlit("error");
    reveal_strlit("session_id");
    reveal_strlit("token");
    assert("type"@.len() == 4);
    assert("agent"@.len() == 5);
    assert("run_id"@.len() == 6);
    assert("content"@.len() == 7);
    assert("tool_calls"@.len() == 10);
    assert("error"@.len() == 5);
    assert("session_id"@.len() == 10);
    assert("token"@.len() == 5);
    assert("agent"@[0] == 'a' && "error"@[0] == 'e');
    assert("agent"@[0] == 'a' && "token"@[0] == 't');
    assert("tool_calls"@[0] == 't' && "session_id"@[0] == 's');
    assert("error"@[0] == 'e' && "token"@[0] == 't');
}


/// What happens in a run is told as what it is, with the run it happened in and with all of
/// its text.
pub proof fn events_say_what_happened(
    agent: Seq<char>,
    run_id: Seq<char>,
    content: Seq<char>,
    tool_calls: int,
    error: Seq<char>,
    session_id: Seq<char>,
    token: Seq<char>,
)
    ensures
        user_event_tree(agent, run_id, content).at("type"@) == Json::Str("user_message"@),
        user_event_tree(agent, run_id, content).at("agent"@) == Json::Str(agent),
        user_event_tree(agent, run_id, content).at("run_id"@) == Json::Str(run_id),
        user_event_tree(agent, run_id, content).at("content"@) == Json::Str(content),
        answer_event_tree(agent, run_id, content, tool_calls).at("type"@) == Json::Str("agent_response"@),
        answer_event_tree(agent, run_id, content, tool_calls).at("agent"@) == Json::Str(agent),
        answer_event_tree(agent, run_id, content, tool_calls).at("run_id"@) == Json::Str(run_id),
        answer_event_tree(agent, run_id, content, tool_calls).at("content"@) == Json::Str(content),
        answer_event_tree(agent, run_id, content, tool_calls).at("tool_calls"@) == Json::Num(tool_calls),
        error_event_tree(agent, run_id, error).at("type"@) == Json::Str("run_error"@),
        error_event_tree(agent, run_id, error).at("agent"@) == Json::Str(agent),
        error_event_tree(agent, run_id, error).at("run_id"@) == Json::Str(run_id),
        error_event_tree(agent, run_id, error).at("error"@) == Json::Str(error),
        cancelled_event_tree(run_id).at("type"@) == Json::Str("run_cancelled"@),
        cancelled_event_tree(run_id).at("run_id"@) == Json::Str(run_id),
        token_event_tree(run_id, session_id, token).at("type"@) == Json::Str("session.token"@),
        token_event_tree(run_id, session_id, token).at("run_id"@) == Json::Str(run_id),
        token_event_tree(run_id, session_id, token).at("session_id"@) == Json::Str(session_id),
        token_event_tree(run_id, session_id, token).at("token"@) == Json::Str(token),
{
    broadcast use lemma_lookup_push;

    lemma_event_names();
}

/// The names of what is answered differ.
proof fn lemma_answer_names()
    ensures
        "status"@ != "version"@,
        "status"@ != "memory_kb"@,
        "status"@ != "pid"@,
        "status"@ != "agent"@,
        "status"@ != "peer"@,
        "status"@ != "session_id"@,
        "status"@ != "workspace"@,
        "version"@ != "memory_kb"@,
        "version"@ != "pid"@,
        "version"@ != "agent"@,
        "version"@ != "peer"@,
        "version"@ != "session_id"@,
        "version"@ != "workspace"@,
        "memory_kb"@ != "pid"@,
        "memory_kb"@ != "agent"@,
        "memory_kb"@ != "peer"@,
        "memory_kb"@ != "session_id"@,
        "memory_kb"@ != "workspace"@,
        "pid"@ != "agent"@,
        "pid"@ != "peer"@,
        "pid"@ != "session_id"@,
        "pid"@ != "workspace"@,
        "agent"@ != "peer"@,
        "agent"@ != "session_id"@,
        "agent"@ != "workspace"@,
        "peer"@ != "session_id"@,
        "peer"@ != "workspace"@,
        "session_id"@ != "workspace"@,
{
    reveal_strlit("status");
    reveal_strlit("version");
    reveal_strlit("memory_kb");
    reveal_strlit("pid");
    reveal_strlit("agent");
    reveal_strlit("peer");
    reveal_strlit("session_id");
    reveal_strlit("workspace");
    assert("status"@.len() == 6);
    assert("version"@.len() == 7);
    assert("memory_kb"@.len() == 9);
    assert("pid"@.len() == 3);
    assert("agent"@.len() == 5);
    assert("peer"@.len() == 4);
    assert("session_id"@.len() == 10);
    assert("workspace"@.len() == 9);
    assert("memory_kb"@[0] == 'm' && "workspace"@[0] == 'w');
}


/// The server answers with its version, its numbers, and what belongs to a session.
pub proof fn requests_about_the_server_are_answered(
    version: Seq<char>,
    memory_kb: int,
    pid: int,
    agent: Seq<char>,
    peer: Seq<char>,
    session_id: Seq<char>,
    workspace: Seq<char>,
)
    ensures
        health_response_tree(version).at("status"@) == Json::Str("ok"@),
        health_response_tree(version).at("version"@) == Json::Str(version),
        metrics_response_tree(memory_kb, pid, version).at("memory_kb"@) == Json::Num(memory_kb),
        metrics_response_tree(memory_kb, pid, version).at("pid"@) == Json::Num(pid),
        metrics_response_tree(memory_kb, pid, version).at("version"@) == Json::Str(version),
        session_response_tree(agent, peer, session_id, workspace).at("agent"@) == Json::Str(agent),
        session_response_tree(agent, peer, session_id, workspace).at("peer"@) == Json::Str(peer),
        session_response_tree(agent, peer, session_id, workspace).at("session_id"@) == Json::Str(session_id),
        session_response_tree(agent, peer, session_id, workspace).at("workspace"@) == Json::Str(workspace),
{
    broadcast use lemma_lookup_push;

    lemma_answer_names();
}

} // verus!
