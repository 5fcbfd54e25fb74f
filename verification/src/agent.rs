//! An agent: what it is asked and answers, and what its model is told.
use std::sync::atomic::AtomicBool;
use std::sync::Arc;
use vstd::prelude::*;

use crate::database::sessions::{Message, RecordView};
use crate::llm::{
    call_views, message_views, CallView, ChatMessage, LlmResponse, MessageView, ResponseView,
    ToolCallRequest,
};
use crate::text::{
    begins, cat, cat4, cat5, char_count, chars_of, contains, ends, first_chars, has, holds, lemma_run_before,
    lowercase, next_char, opt, owned, owned_opt, run_before, stands_at, str_eq, string_of, take_chars, texts,
    to_lowercase, trim, trimmed,
};
use crate::tools::{ToolEntry, ToolRegistry};
use crate::value::{json_document, lemma_lookup_push, no_fields, parse_json, Data, Fields, Json};

verus! {

/// What an agent is asked to do.
#[derive(Debug)]
pub struct AgentRequest {
    pub agent_id: String,
    pub session_id: String,
    pub channel: String,
    pub peer_id: String,
    pub content: String,
    pub attachments: Vec<Attachment>,
    pub run_id: Option<String>,
    pub model_profile: Option<String>,
    pub cancel_token: Option<Arc<AtomicBool>>,
}

/// What a request says.
pub struct RequestView {
    pub agent_id: Seq<char>,
    pub session_id: Seq<char>,
    pub channel: Seq<char>,
    pub peer_id: Seq<char>,
    pub content: Seq<char>,
    pub attachments: Seq<Attachment>,
    pub run_id: Option<Seq<char>>,
    pub model_profile: Option<Seq<char>>,
    pub cancel_token: Option<Arc<AtomicBool>>,
}

impl View for AgentRequest {
    type V = RequestView;

    open spec fn view(&self) -> RequestView {
        RequestView {
            agent_id: self.agent_id@,
            session_id: self.session_id@,
            channel: self.channel@,
            peer_id: self.peer_id@,
            content: self.content@,
            attachments: self.attachments@,
            run_id: opt(self.run_id),
            model_profile: opt(self.model_profile),
            cancel_token: self.cancel_token,
        }
    }
}

/// A file that comes with a message.
#[derive(Debug)]
pub struct Attachment {
    pub kind: String,
    pub filename: String,
    pub mime: String,
    pub size: u64,
    pub local_path: Option<String>,
}

/// What an agent answers.
#[derive(Debug)]
pub struct AgentResponse {
    pub session_id: String,
    pub content: String,
    pub tool_calls: Vec<ToolCallInfo>,
    pub tokens_used: Option<u32>,
    pub model_used: Option<String>,
}

/// A tool call that was made, with its result.
#[derive(Debug)]
pub struct ToolCallInfo {
    pub name: String,
    pub arguments: String,
    pub result: Option<String>,
}

/// How an agent is set up.
#[derive(Debug)]
pub struct AgentConfig {
    pub name: String,
    pub system_prompt: String,
    pub max_tool_rounds: u32,
    pub model_override: Option<String>,
    pub yolo_mode: bool,
}

/// How an agent is set up, as a value.
pub struct ConfigView {
    pub name: Seq<char>,
    pub system_prompt: Seq<char>,
    pub max_tool_rounds: u32,
    pub model_override: Option<Seq<char>>,
    pub yolo_mode: bool,
}

impl View for AgentConfig {
    type V = ConfigView;

    open spec fn view(&self) -> ConfigView {
        ConfigView {
            name: self.name@,
            system_prompt: self.system_prompt@,
            max_tool_rounds: self.max_tool_rounds,
            model_override: opt(self.model_override),
            yolo_mode: self.yolo_mode,
        }
    }
}

impl Clone for AgentConfig {
    fn clone(&self) -> (r: AgentConfig)
        ensures
            r@ == self@,
    {
        AgentConfig {
            name: self.name.clone(),
            system_prompt: self.system_prompt.clone(),
            max_tool_rounds: self.max_tool_rounds,
            model_override: owned_opt(&self.model_override),
            yolo_mode: self.yolo_mode,
        }
    }
}

/// What an agent is told of the system it runs on.
pub open spec fn environment_note(windows: bool) -> Seq<char> {
    if windows {
        "\n\nEnvironment: You are running on Windows. The shell_exec tool runs commands via cmd.exe (cmd /C). Use Windows command syntax (e.g. `dir`, `type file.txt`, `echo %VAR%`, `where python`, `date /t`, `time /t`). Do NOT use Unix syntax like `ls -la`, `cat`, `grep`, `env`, `TZ=... date`, or `export VAR=value`. Use PowerShell syntax only if explicitly needed via `powershell -Command \"...\"`."@
    } else {
        "\n\nEnvironment: You are running on Linux/Unix. The shell_exec tool runs commands via sh -c."@
    }
}

impl AgentConfig {
    /// The system prompt with a note on the system that the agent runs on.
    pub fn build_system_prompt(&self, windows: bool) -> (r: String)
        ensures
            r@ == self.system_prompt@ + environment_note(windows),
    {
        if windows {
            cat(
                self.system_prompt.as_str(),
                "\n\nEnvironment: You are running on Windows. The shell_exec tool runs commands via cmd.exe (cmd /C). Use Windows command syntax (e.g. `dir`, `type file.txt`, `echo %VAR%`, `where python`, `date /t`, `time /t`). Do NOT use Unix syntax like `ls -la`, `cat`, `grep`, `env`, `TZ=... date`, or `export VAR=value`. Use PowerShell syntax only if explicitly needed via `powershell -Command \"...\"`.",
            )
        } else {
            cat(
                self.system_prompt.as_str(),
                "\n\nEnvironment: You are running on Linux/Unix. The shell_exec tool runs commands via sh -c.",
            )
        }
    }
}

/// Where the messages of a run are stored: in a session of the agent, the channel
/// and the peer. A chat on the web has a session of its own there, with the session id
/// of the request as its thread; elsewhere a peer has one session, without a thread.
#[derive(Debug)]
pub struct SessionPlace {
    pub agent_id: String,
    pub channel: String,
    pub peer_id: String,
    pub thread_id: Option<String>,
}

/// What a place says.
pub struct PlaceView {
    pub agent_id: Seq<char>,
    pub channel: Seq<char>,
    pub peer_id: Seq<char>,
    pub thread_id: Option<Seq<char>>,
}

impl View for SessionPlace {
    type V = PlaceView;

    open spec fn view(&self) -> PlaceView {
        PlaceView {
            agent_id: self.agent_id@,
            channel: self.channel@,
            peer_id: self.peer_id@,
            thread_id: opt(self.thread_id),
        }
    }
}

/// Where the messages of a run are stored: only a chat on the web has a thread.
pub open spec fn place_of(request: RequestView) -> PlaceView {
    PlaceView {
        agent_id: request.agent_id,
        channel: request.channel,
        peer_id: request.peer_id,
        thread_id: if request.channel == "web"@ {
            Some(request.session_id)
        } else {
            None
        },
    }
}

/// Where the messages of a run are stored.
pub fn session_place(request: &AgentRequest) -> (r: SessionPlace)
    ensures
        r@ == place_of(request@),
{
    SessionPlace {
        agent_id: request.agent_id.clone(),
        channel: request.channel.clone(),
        peer_id: request.peer_id.clone(),
        thread_id: if str_eq(request.channel.as_str(), "web") {
            Some(request.session_id.clone())
        } else {
            None
        },
    }
}

/// On every channel but the web a peer keeps one session with an agent: a scheduled
/// run for a peer is stored with what that peer wrote.
pub proof fn peers_keep_one_session(a: RequestView, b: RequestView)
    requires
        a.channel != "web"@,
        a.agent_id == b.agent_id,
        a.channel == b.channel,
        a.peer_id == b.peer_id,
    ensures
        place_of(a) == place_of(b),
        place_of(a).thread_id is None,
{
}

/// The system prompt of a session: with the summary of what was archived, where
/// there is one that is not blank.
pub open spec fn prompt_with_summary(prompt: Seq<char>, summary: Option<Seq<char>>) -> Seq<char> {
    match summary {
        Some(s) => if trimmed(s).len() == 0 {
            prompt
        } else {
            prompt + "\n\n## Prior conversation summary\n"@ + s
                + "\n\nThe messages before this summary were archived to save context. Use this summary to recall earlier context."@
        },
        None => prompt,
    }
}

/// The system prompt of a session.
pub fn session_prompt(prompt: &str, summary: Option<&str>) -> (r: String)
    ensures
        r@ == prompt_with_summary(
            prompt@,
            match summary {
                Some(s) => Some(s@),
                None => None,
            },
        ),
{
    match summary {
        Some(s) => if trim(s).as_str().is_empty() {
            owned(prompt)
        } else {
            cat4(
                prompt,
                "\n\n## Prior conversation summary\n",
                s,
                "\n\nThe messages before this summary were archived to save context. Use this summary to recall earlier context.",
            )
        },
        None => owned(prompt),
    }
}

/// A text that is split at its first vertical bar, where it has one.
pub open spec fn split_at_bar(s: Seq<char>) -> Option<(Seq<char>, Seq<char>)> {
    let k = run_before(s, '|');
    if 0 <= k < s.len() {
        Some((s.take(k), s.skip(k + 1)))
    } else {
        None
    }
}

/// Splits a text at its first vertical bar.
fn split_bar(s: &str) -> (r: Option<(String, String)>)
    ensures
        match split_at_bar(s@) {
            Some((a, b)) => r matches Some(t) && t.0@ == a && t.1@ == b,
            None => r is None,
        },
{
    let v = chars_of(s);
    proof {
        assert(v@.skip(0) =~= v@);
    }
    let k = next_char(&v, 0, '|');
    if k < v.len() {
        let a = string_of(&v, 0, k);
        let b = string_of(&v, k + 1, v.len());
        proof {
            assert(a@ =~= s@.take(k as int));
            assert(b@ =~= s@.skip(k + 1));
        }
        Some((a, b))
    } else {
        None
    }
}

/// A stored message, with the tool calls that its column of calls stands for,
/// where it stands for any.
pub struct StoredView {
    pub message: RecordView,
    pub calls: Option<Seq<CallView>>,
}

/// The ids of tool calls.
pub open spec fn call_ids(calls: Seq<CallView>) -> Seq<Seq<char>> {
    Seq::new(calls.len(), |i: int| calls[i].id)
}

/// The ids of the tool calls that a message asks for.
pub open spec fn asked_ids(calls: Option<Seq<CallView>>) -> Seq<Seq<char>> {
    match calls {
        Some(calls) => call_ids(calls),
        None => seq![],
    }
}

/// The ids of the tool calls that a message asks for.
fn ids_asked(calls: &Option<Vec<ToolCallRequest>>) -> (r: Vec<String>)
    ensures
        texts(r@) == asked_ids(
            match *calls {
                Some(calls) => Some(call_views(calls@)),
                None => None,
            },
        ),
{
    let mut out: Vec<String> = Vec::new();
    match calls {
        Some(calls) => {
            let ghost ids = call_ids(call_views(calls@));
            let mut i: usize = 0;
            while i < calls.len()
                invariant
                    i <= calls@.len(),
                    ids == call_ids(call_views(calls@)),
                    texts(out@) == ids.take(i as int),
                decreases calls@.len() - i,
            {
                let ghost before = out@;
                out.push(calls[i].id.clone());
                proof {
                    assert(ids[i as int] == calls@[i as int].id@);
                    assert(texts(out@) =~= texts(before).push(ids[i as int]));
                    assert(ids.take(i + 1) =~= ids.take(i as int).push(ids[i as int]));
                }
                i = i + 1;
            }
            proof {
                assert(ids.take(i as int) =~= ids);
            }
        },
        None => {
            proof {
                assert(texts(out@) =~= seq![]);
            }
        },
    }
    out
}

/// The conversation that stored messages stand for, and the ids of the tool calls
/// that its last assistant message asks for, while results may follow them.
pub struct Conversation {
    pub messages: Seq<MessageView>,
    pub calls_open: Seq<Seq<char>>,
}

/// The conversation after one more stored message. The id of the call that a tool
/// result belongs to stands before the first vertical bar; the result stands only
/// where the assistant message before it asks for that call.
pub open spec fn extend(c: Conversation, m: StoredView) -> Conversation {
    let role = m.message.role;
    let content = m.message.content;
    if role == "user"@ {
        Conversation { messages: c.messages.push(MessageView::User(content)), calls_open: seq![] }
    } else if role == "assistant"@ {
        if m.message.tool_calls is Some {
            Conversation {
                messages: c.messages.push(
                    MessageView::Assistant { text: content, tool_calls: m.calls },
                ),
                calls_open: asked_ids(m.calls),
            }
        } else if content.len() > 0 {
            Conversation {
                messages: c.messages.push(
                    MessageView::Assistant { text: content, tool_calls: None },
                ),
                calls_open: seq![],
            }
        } else {
            Conversation { messages: c.messages, calls_open: seq![] }
        }
    } else if role == "tool_result"@ {
        match split_at_bar(content) {
            Some((call_id, result)) => if c.calls_open.contains(call_id) {
                Conversation {
                    messages: c.messages.push(MessageView::ToolResult { call_id, content: result }),
                    calls_open: c.calls_open,
                }
            } else {
                c
            },
            None => c,
        }
    } else {
        c
    }
}

/// The conversation that stored messages stand for.
pub open spec fn conversation(stored: Seq<StoredView>) -> Conversation
    decreases stored.len(),
{
    if stored.len() == 0 {
        Conversation { messages: seq![], calls_open: seq![] }
    } else {
        extend(conversation(stored.drop_last()), stored.last())
    }
}

/// Stored messages with what their columns of calls stand for.
pub open spec fn stored_views(
    messages: Seq<Message>,
    parsed: Seq<Option<Vec<ToolCallRequest>>>,
) -> Seq<StoredView> {
    Seq::new(
        messages.len(),
        |i: int|
            StoredView {
                message: messages[i]@,
                calls: match parsed[i] {
                    Some(calls) => Some(call_views(calls@)),
                    None => None,
                },
            },
    )
}

/// The conversation that is sent to the model. For each message, `parsed` holds
/// the tool calls that its column of calls stands for, or nothing where the
/// column is empty or cannot be read.
pub fn build_llm_messages(
    messages: &Vec<Message>,
    parsed: Vec<Option<Vec<ToolCallRequest>>>,
) -> (r: Vec<ChatMessage>)
    requires
        parsed@.len() == messages@.len(),
    ensures
        message_views(r@) == conversation(stored_views(messages@, parsed@)).messages,
{
    let ghost all = stored_views(messages@, parsed@);
    let ghost given = parsed@;
    let mut parsed = parsed;
    let mut out: Vec<ChatMessage> = Vec::new();
    let mut calls_open: Vec<String> = Vec::new();
    proof {
        assert(texts(calls_open@) =~= conversation(all.take(0)).calls_open);
        assert(message_views(out@) =~= conversation(all.take(0)).messages);
    }
    let mut i: usize = 0;
    while i < messages.len()
        invariant
            i <= messages@.len(),
            given.len() == messages@.len(),
            parsed@.len() == given.len(),
            all == stored_views(messages@, given),
            forall|j: int| i <= j < given.len() ==> parsed@[j] == given[j],
            message_views(out@) == conversation(all.take(i as int)).messages,
            texts(calls_open@) == conversation(all.take(i as int)).calls_open,
        decreases messages@.len() - i,
    {
        let m = &messages[i];
        let ghost before = out@;
        let ghost c = conversation(all.take(i as int));
        proof {
            assert(all.take(i + 1).drop_last() =~= all.take(i as int));
            assert(all.take(i + 1).last() == all[i as int]);
        }
        let calls = parsed[i].take();
        if str_eq(m.role.as_str(), "user") {
            out.push(ChatMessage::User(m.content.clone()));
            proof {
                assert(message_views(out@) =~= c.messages.push(MessageView::User(m.content@)));
            }
            calls_open = Vec::new();
            proof {
                assert(texts(calls_open@) =~= seq![]);
            }
        } else if str_eq(m.role.as_str(), "assistant") {
            if m.tool_calls.is_some() {
                calls_open = ids_asked(&calls);
                let message = ChatMessage::Assistant { text: m.content.clone(), tool_calls: calls };
                out.push(message);
                proof {
                    assert(message@ == (MessageView::Assistant {
                        text: m.content@,
                        tool_calls: all[i as int].calls,
                    }));
                    assert(message_views(out@) =~= c.messages.push(message@));
                }
            } else {
                if !m.content.as_str().is_empty() {
                    let message = ChatMessage::Assistant {
                        text: m.content.clone(),
                        tool_calls: None,
                    };
                    out.push(message);
                    proof {
                        assert(message_views(out@) =~= c.messages.push(message@));
                    }
                }
                calls_open = Vec::new();
                proof {
                    assert(texts(calls_open@) =~= seq![]);
                }
            }
        } else if str_eq(m.role.as_str(), "tool_result") {
            match split_bar(m.content.as_str()) {
                Some((call_id, content)) => {
                    if holds(&calls_open, call_id.as_str()) {
                        let message = ChatMessage::ToolResult { call_id, content };
                        out.push(message);
                        proof {
                            assert(message_views(out@) =~= c.messages.push(message@));
                        }
                    }
                },
                None => {},
            }
        }
        i = i + 1;
    }
    proof {
        assert(all.take(i as int) =~= all);
    }
    out
}

/// The ids of the tool calls that a result may belong to behind these messages:
/// those that the last message asks for which is not itself a result.
pub open spec fn awaited(messages: Seq<MessageView>) -> Seq<Seq<char>>
    decreases messages.len(),
{
    if messages.len() == 0 {
        seq![]
    } else {
        match messages.last() {
            MessageView::User(_) => seq![],
            MessageView::Assistant { tool_calls, .. } => asked_ids(tool_calls),
            MessageView::ToolResult { .. } => awaited(messages.drop_last()),
        }
    }
}

/// In the conversation that is sent to a model, the result of a tool stands only
/// behind an assistant message that asks for this very call, with nothing but other
/// results between them: results without such a message are left out.
pub proof fn tool_results_follow_their_calls(stored: Seq<StoredView>)
    ensures
        forall|i: int|
            0 <= i < conversation(stored).messages.len() ==> ((
            #[trigger] conversation(stored).messages[i]) matches MessageView::ToolResult {
                call_id,
                ..
            } ==> awaited(conversation(stored).messages.take(i)).contains(call_id)),
        conversation(stored).calls_open.len() == 0 || conversation(stored).calls_open == awaited(
            conversation(stored).messages,
        ),
    decreases stored.len(),
{
    if stored.len() > 0 {
        tool_results_follow_their_calls(stored.drop_last());
        let before = conversation(stored.drop_last());
        let after = conversation(stored);
        assert(after == extend(before, stored.last()));
        if after.messages.len() > before.messages.len() {
            assert(after.messages.drop_last() =~= before.messages);
        }
        assert forall|i: int| 0 <= i < after.messages.len() implies ((
        #[trigger] after.messages[i]) matches MessageView::ToolResult { call_id, .. } ==> awaited(
            after.messages.take(i),
        ).contains(call_id)) by {
            if i < before.messages.len() {
                assert(before.messages[i] == after.messages[i]);
                assert(before.messages.take(i) =~= after.messages.take(i));
            } else {
                assert(after.messages.take(i) =~= before.messages);
            }
        }
    }
}

/// What is stored as the result of a call: the id of the call, a vertical bar,
/// and the result.
pub open spec fn result_record(call_id: Seq<char>, result: Seq<char>) -> Seq<char> {
    call_id + "|"@ + result
}

/// A result that is stored under an id without a vertical bar is split into the
/// id and the result again.
pub proof fn result_record_splits_back(call_id: Seq<char>, result: Seq<char>)
    requires
        !call_id.contains('|'),
    ensures
        split_at_bar(result_record(call_id, result)) == Some((call_id, result)),
{
    reveal_strlit("|");
    let s = result_record(call_id, result);
    let n = call_id.len() as int;
    lemma_run_before(s, '|');
    let k = run_before(s, '|');
    assert(s[n] == '|');
    if k < n {
        assert(s[k] == call_id[k]);
        assert(call_id.contains('|'));
    }
    assert(k == n);
    assert(s.take(n) =~= call_id);
    assert(s.skip(n + 1) =~= result);
}

/// Whether stored messages are those of a round: an assistant message with
/// calls, then the result of each call.
pub open spec fn is_round(
    round: Seq<StoredView>,
    calls: Seq<CallView>,
    results: Seq<Seq<char>>,
) -> bool {
    &&& calls.len() == results.len()
    &&& round.len() == calls.len() + 1
    &&& round[0].message.role == "assistant"@
    &&& round[0].message.content.len() == 0
    &&& round[0].message.tool_calls is Some
    &&& round[0].calls == Some(calls)
    &&& forall|i: int|
        0 <= i < calls.len() ==> (#[trigger] round[i + 1]).message.role == "tool_result"@
            && round[i + 1].message.content == result_record(calls[i].id, results[i])
}

/// A round as the model sees it.
pub open spec fn round_messages(calls: Seq<CallView>, results: Seq<Seq<char>>) -> Seq<MessageView> {
    seq![MessageView::Assistant { text: seq![], tool_calls: Some(calls) }] + Seq::new(
        results.len(),
        |i: int| MessageView::ToolResult { call_id: calls[i].id, content: results[i] },
    )
}

/// A round that was stored, with ids that hold no vertical bar, reads back as it
/// was: the calls, then each result under the id of its call, in order.
pub proof fn stored_round_reads_back(
    history: Seq<StoredView>,
    round: Seq<StoredView>,
    calls: Seq<CallView>,
    results: Seq<Seq<char>>,
)
    requires
        is_round(round, calls, results),
        calls.len() > 0,
        forall|i: int| 0 <= i < calls.len() ==> !(#[trigger] calls[i]).id.contains('|'),
    ensures
        conversation(history + round).messages == conversation(history).messages + round_messages(
            calls,
            results,
        ),
{
    lemma_round_prefix(history, round, calls, results, results.len() as int);
    assert(round.take(round.len() as int) =~= round);
    assert(results.take(results.len() as int) =~= results);
}

/// The first results of a stored round read back as they were.
proof fn lemma_round_prefix(
    history: Seq<StoredView>,
    round: Seq<StoredView>,
    calls: Seq<CallView>,
    results: Seq<Seq<char>>,
    n: int,
)
    requires
        is_round(round, calls, results),
        calls.len() > 0,
        forall|i: int| 0 <= i < calls.len() ==> !(#[trigger] calls[i]).id.contains('|'),
        0 <= n <= results.len(),
    ensures
        conversation(history + round.take(n + 1)).calls_open == call_ids(calls),
        conversation(history + round.take(n + 1)).messages == conversation(history).messages
            + round_messages(calls, results.take(n)),
    decreases n,
{
    reveal_strlit("user");
    reveal_strlit("assistant");
    reveal_strlit("tool_result");
    assert("user"@.len() == 4 && "assistant"@.len() == 9 && "tool_result"@.len() == 11);
    let now = history + round.take(n + 1);
    assert(now.last() == round[n]);
    assert(conversation(now) == extend(conversation(now.drop_last()), round[n]));
    if n == 0 {
        assert(now.drop_last() =~= history);
        assert(round[0].message.content =~= seq![]);
        assert(conversation(now).messages =~= conversation(history).messages + round_messages(
            calls,
            results.take(n),
        ));
    } else {
        assert(now.drop_last() =~= history + round.take(n));
        lemma_round_prefix(history, round, calls, results, n - 1);
        let m = round[n - 1 + 1];
        result_record_splits_back(calls[n - 1].id, results[n - 1]);
        assert(call_ids(calls)[n - 1] == calls[n - 1].id);
        assert(conversation(now).messages =~= conversation(history).messages + round_messages(
            calls,
            results.take(n),
        ));
    }
}

/// Whether a lowercase text has one of the phrases of a greeting in it.
pub open spec fn greets(lower: Seq<char>) -> bool {
    has(lower, "hi there!"@) || has(lower, "hi!"@) || has(lower, "hello!"@) || has(
        lower,
        "hey there"@,
    ) || has(lower, "hello there"@) || has(lower, "greetings"@) || has(
        lower,
        "how can i help you today"@,
    ) || has(lower, "how may i help you"@) || has(lower, "what can i help you with"@) || has(
        lower,
        "how can i assist you"@,
    ) || has(lower, "what can i do for you"@) || has(
        lower,
        "is there anything else i can help you with"@,
    )
}

/// Whether a lowercase text has one of the phrases of a greeting in it.
pub fn has_greeting(lower: &str) -> (r: bool)
    ensures
        r == greets(lower@),
{
    contains(lower, "hi there!") || contains(lower, "hi!") || contains(lower, "hello!") || contains(
        lower,
        "hey there",
    ) || contains(lower, "hello there") || contains(lower, "greetings") || contains(
        lower,
        "how can i help you today",
    ) || contains(lower, "how may i help you") || contains(lower, "what can i help you with")
        || contains(lower, "how can i assist you") || contains(lower, "what can i do for you")
        || contains(lower, "is there anything else i can help you with")
}

/// Whether a text is a canned greeting: short, and with one of the phrases of a
/// greeting in it.
pub open spec fn canned(text: Seq<char>) -> bool {
    text.len() <= 120 && greets(lowercase(text))
}

/// Whether a text is a canned greeting, as models sometimes give in place of an
/// answer. Only short texts are taken for one.
pub fn is_canned_greeting(text: &str) -> (r: bool)
    ensures
        r == canned(text@),
{
    if char_count(text) > 120 {
        return false;
    }
    has_greeting(to_lowercase(text).as_str())
}

/// What goes wrong before a tool runs.
#[derive(Debug)]
pub enum CallError {
    /// There is no such tool.
    NotFound(String),
    /// The arguments are no JSON document.
    BadArguments,
}

impl CallError {
    /// What the error says.
    pub open spec fn says(self) -> Seq<char> {
        match self {
            CallError::NotFound(name) => "Tool not found: "@ + name@,
            CallError::BadArguments => "Failed to parse tool arguments as JSON"@,
        }
    }

    /// What the error says.
    pub fn message(&self) -> (r: String)
        ensures
            r@ == self.says(),
    {
        match self {
            CallError::NotFound(name) => cat("Tool not found: ", name.as_str()),
            CallError::BadArguments => owned("Failed to parse tool arguments as JSON"),
        }
    }
}

/// The tool of that name, with the arguments that it is run on.
pub fn execute_tool<'a, H>(
    tools: &'a ToolRegistry<H>,
    tool_name: &str,
    arguments: &str,
) -> (r: Result<(&'a ToolEntry<H>, Data), CallError>)
    requires
        tools.wf(),
    ensures
        if !tools@.tools.contains_key(tool_name@) {
            r matches Err(CallError::NotFound(name)) && name@ == tool_name@
        } else {
            match json_document(arguments@) {
                Some(tree) => r matches Ok((entry, input)) && entry@ == tools@.tools[tool_name@]
                    && input@ == tree,
                None => r matches Err(CallError::BadArguments),
            }
        },
{
    match tools.get(tool_name) {
        None => Err(CallError::NotFound(owned(tool_name))),
        Some(entry) => match parse_json(arguments) {
            Some(input) => Ok((entry, input)),
            None => Err(CallError::BadArguments),
        },
    }
}

/// A session with more messages than this is compacted.
pub const COMPACT_THRESHOLD: i64 = 60;

/// How many messages a compaction keeps.
pub const COMPACT_KEEP: usize = 30;

/// Whether a session with so many messages is compacted.
pub open spec fn is_long(message_count: int) -> bool {
    message_count > 60
}

/// A session is compacted from its sixty-first message on, and not before.
pub proof fn long_sessions_are_compacted(message_count: int)
    ensures
        message_count <= 60 ==> !is_long(message_count),
        message_count >= 61 ==> is_long(message_count),
{
}

/// Whether a session with so many messages is compacted.
pub fn needs_compaction(message_count: i64) -> (r: bool)
    ensures
        r == (message_count > 60),
        r == is_long(message_count as int),
{
    message_count > COMPACT_THRESHOLD
}

/// A message as a line of a transcript.
pub open spec fn transcript_line(m: RecordView) -> Seq<char> {
    "["@ + (if m.role == "assistant"@ {
        "assistant"@
    } else {
        "user"@
    }) + "] "@ + first_chars(m.content, 600) + "\n"@
}

/// The transcript of messages, without the results of tools.
pub open spec fn transcript(messages: Seq<RecordView>) -> Seq<char>
    decreases messages.len(),
{
    if messages.len() == 0 {
        seq![]
    } else {
        let before = transcript(messages.drop_last());
        let m = messages.last();
        if m.role == "tool_result"@ || m.role == "tool"@ {
            before
        } else {
            before + transcript_line(m)
        }
    }
}

/// What a list of messages says.
pub open spec fn record_views(v: Seq<Message>) -> Seq<RecordView> {
    Seq::new(v.len(), |i: int| v[i]@)
}

/// What the summarizing model is asked.
pub open spec fn summary_prompt(transcript: Seq<char>) -> Seq<char> {
    "Summarize the conversation transcript below into a compact summary (max 250 words) that preserves the key facts, decisions, tasks, user preferences, and any context needed to continue the conversation. Do not add anything not present in the transcript.\n\nTRANSCRIPT:\n"@
        + transcript
}

/// The transcript of the messages that a compaction archives: of all but the
/// last thirty.
pub open spec fn archived_transcript(messages: Seq<RecordView>) -> Seq<char> {
    first_chars(transcript(messages.take(messages.len() - 30)), 9000)
}

/// A compaction: what the summarizing model is told and asked, and the ids of the
/// messages that are archived.
#[derive(Debug)]
pub struct Compaction {
    pub system: String,
    pub prompt: String,
    pub archived: Vec<String>,
}

/// What a compaction says.
pub struct CompactionView {
    pub system: Seq<char>,
    pub prompt: Seq<char>,
    pub archived: Seq<Seq<char>>,
}

/// How a session with these messages is compacted, where it is.
pub open spec fn compaction_of(messages: Seq<RecordView>) -> Option<CompactionView> {
    if messages.len() <= 30 || trimmed(archived_transcript(messages)).len() == 0 {
        None
    } else {
        Some(
            CompactionView {
                system: "You are a conversation summarizer. Output only the summary."@,
                prompt: summary_prompt(archived_transcript(messages)),
                archived: ids_of(messages.take(messages.len() - 30)),
            },
        )
    }
}

/// The ids of messages.
pub open spec fn ids_of(messages: Seq<RecordView>) -> Seq<Seq<char>> {
    Seq::new(messages.len(), |i: int| messages[i].id)
}

/// The ids of the first messages.
fn first_ids(messages: &Vec<Message>, count: usize) -> (r: Vec<String>)
    requires
        count <= messages@.len(),
    ensures
        texts(r@) == ids_of(record_views(messages@).take(count as int)),
{
    let mut out: Vec<String> = Vec::new();
    for i in 0..count
        invariant
            count <= messages@.len(),
            out@.len() == i,
            forall|j: int| 0 <= j < i ==> #[trigger] out@[j]@ == messages@[j]@.id,
    {
        out.push(messages[i].id.clone());
    }
    proof {
        assert(texts(out@) =~= ids_of(record_views(messages@).take(count as int)));
    }
    out
}

/// The transcript of the first messages.
fn write_transcript(messages: &Vec<Message>, count: usize) -> (r: String)
    requires
        count <= messages@.len(),
    ensures
        r@ == transcript(record_views(messages@).take(count as int)),
{
    let ghost all = record_views(messages@);
    let mut out = String::new();
    proof {
        assert(out@ =~= transcript(all.take(0)));
    }
    let mut i: usize = 0;
    while i < count
        invariant
            i <= count <= messages@.len(),
            all == record_views(messages@),
            out@ == transcript(all.take(i as int)),
        decreases count - i,
    {
        let m = &messages[i];
        proof {
            assert(all.take(i + 1).drop_last() =~= all.take(i as int));
            assert(all.take(i + 1).last() == m@);
        }
        if !(str_eq(m.role.as_str(), "tool_result") || str_eq(m.role.as_str(), "tool")) {
            let who = if str_eq(m.role.as_str(), "assistant") {
                "assistant"
            } else {
                "user"
            };
            let line = cat5("[", who, "] ", take_chars(m.content.as_str(), 600).as_str(), "\n");
            out.append(line.as_str());
        }
        i = i + 1;
    }
    out
}

/// How a session with these messages is compacted: not at all where there are no
/// more than are kept, or where nothing is left to sum up. What is archived are just
/// the messages that are summed up: all but the last thirty.
pub fn plan_compaction(messages: &Vec<Message>) -> (r: Option<Compaction>)
    ensures
        ({
            let all = record_views(messages@);
            if all.len() <= 30 || trimmed(archived_transcript(all)).len() == 0 {
                r is None
            } else {
                r matches Some(c) && c.system@
                    == "You are a conversation summarizer. Output only the summary."@ && c.prompt@
                    == summary_prompt(archived_transcript(all)) && texts(c.archived@) == ids_of(all.take(all.len() - 30))
            }
        }),
        match compaction_of(record_views(messages@)) {
            Some(c) => r matches Some(plan) && plan.system@ == c.system && plan.prompt@ == c.prompt
                && texts(plan.archived@) == c.archived,
            None => r is None,
        },
{
    if messages.len() <= COMPACT_KEEP {
        return None;
    }
    let archived: usize = messages.len() - COMPACT_KEEP;
    let text = take_chars(write_transcript(messages, archived).as_str(), 9000);
    if trim(text.as_str()).as_str().is_empty() {
        return None;
    }
    Some(
        Compaction {
            system: owned("You are a conversation summarizer. Output only the summary."),
            prompt: cat(
                "Summarize the conversation transcript below into a compact summary (max 250 words) that preserves the key facts, decisions, tasks, user preferences, and any context needed to continue the conversation. Do not add anything not present in the transcript.\n\nTRANSCRIPT:\n",
                text.as_str(),
            ),
            archived: first_ids(messages, archived),
        },
    )
}

/// The summary that a summarizing model gave: its text without surrounding
/// space, where that is not empty.
pub fn summary_of(reply: &LlmResponse) -> (r: Option<String>)
    ensures
        match reply@ {
            ResponseView::Text(text) => if trimmed(text).len() == 0 {
                r is None
            } else {
                r matches Some(s) && s@ == trimmed(text)
            },
            ResponseView::ToolCalls(_) => r is None,
        },
        opt(r) == summary_in(reply@),
{
    match reply {
        LlmResponse::Text(text) => {
            let t = trim(text.as_str());
            if t.as_str().is_empty() {
                None
            } else {
                Some(t)
            }
        },
        LlmResponse::ToolCalls(_) => None,
    }
}

/// The event that a session was compacted.
pub open spec fn compacted_tree(run_id: Seq<char>, session_id: Seq<char>, archived: int) -> Json {
    Json::Table(
        no_fields().push(("type"@, Json::Str("session.compacted"@))).push(
            ("run_id"@, Json::Str(run_id)),
        ).push(("session_id"@, Json::Str(session_id))).push(
            ("archived_messages"@, Json::Num(archived)),
        ),
    )
}

/// The event that a session was compacted.
pub fn compacted_event(run_id: &str, session_id: &str, archived: usize) -> (r: Data)
    ensures
        r@ == compacted_tree(run_id@, session_id@, archived as int),
{
    let mut f = Fields::new();
    f.put_str("type", "session.compacted");
    f.put_str("run_id", run_id);
    f.put_str("session_id", session_id);
    f.put_uint("archived_messages", archived as u64);
    f.done()
}

/// The names of the fields of an event differ.
proof fn lemma_compacted_names()
    ensures
        "type"@ != "run_id"@,
        "type"@ != "session_id"@,
        "type"@ != "archived_messages"@,
        "run_id"@ != "session_id"@,
        "run_id"@ != "archived_messages"@,
        "session_id"@ != "archived_messages"@,
{
    reveal_strlit("type");
    reveal_strlit("run_id");
    reveal_strlit("session_id");
    reveal_strlit("archived_messages");
    assert("type"@.len() == 4);
    assert("run_id"@.len() == 6);
    assert("session_id"@.len() == 10);
    assert("archived_messages"@.len() == 17);
}


/// Every stored message reaches the model as it was stored: what the user wrote as the
/// user's; an answer as the assistant's, with the calls that it asks for; and a result
/// under the id of its call, where that call was asked for. Only empty answers, results
/// that nobody asked for, and messages of other roles are left out.
pub proof fn stored_messages_reach_the_model(history: Seq<StoredView>, m: StoredView)
    ensures
        ({
            let before = conversation(history);
            let after = conversation(history.push(m)).messages;
            let role = m.message.role;
            let content = m.message.content;
            &&& role == "user"@ ==> after == before.messages.push(MessageView::User(content))
            &&& role == "assistant"@ && m.message.tool_calls is Some ==> after
                == before.messages.push(
                MessageView::Assistant { text: content, tool_calls: m.calls },
            )
            &&& role == "assistant"@ && m.message.tool_calls is None && content.len() > 0 ==> after
                == before.messages.push(MessageView::Assistant { text: content, tool_calls: None })
            &&& role == "assistant"@ && m.message.tool_calls is None && content.len() == 0 ==> after
                == before.messages
            &&& role == "tool_result"@ ==> (match split_at_bar(content) {
                Some((call_id, result)) => if before.calls_open.contains(call_id) {
                    after == before.messages.push(
                        MessageView::ToolResult { call_id, content: result },
                    )
                } else {
                    after == before.messages
                },
                None => after == before.messages,
            })
            &&& role != "user"@ && role != "assistant"@ && role != "tool_result"@ ==> after
                == before.messages
        }),
        conversation(seq![]).messages.len() == 0,
{
    reveal_strlit("user");
    reveal_strlit("assistant");
    reveal_strlit("tool_result");
    assert("user"@.len() == 4 && "assistant"@.len() == 9 && "tool_result"@.len() == 11);
    assert(history.push(m).drop_last() =~= history);
}

/// A text is split at its first vertical bar, and where it has none it is not split.
pub proof fn texts_are_split_at_the_first_bar(s: Seq<char>)
    ensures
        match split_at_bar(s) {
            Some((a, b)) => s == a + seq!['|'] + b && !a.contains('|'),
            None => !s.contains('|'),
        },
{
    lemma_run_before(s, '|');
    let k = run_before(s, '|');
    if k < s.len() {
        assert(s =~= s.take(k) + seq!['|'] + s.skip(k + 1));
    }
}

/// Only a text of at most a hundred and twenty characters that has one of these phrases
/// in it is taken for a canned greeting.
pub proof fn only_short_greetings_are_canned(text: Seq<char>)
    ensures
        text.len() > 120 ==> !canned(text),
        canned(text) <==> text.len() <= 120 && {
            let lower = lowercase(text);
            ||| has(lower, "hi there!"@)
            ||| has(lower, "hi!"@)
            ||| has(lower, "hello!"@)
            ||| has(lower, "hey there"@)
            ||| has(lower, "hello there"@)
            ||| has(lower, "greetings"@)
            ||| has(lower, "how can i help you today"@)
            ||| has(lower, "how may i help you"@)
            ||| has(lower, "what can i help you with"@)
            ||| has(lower, "how can i assist you"@)
            ||| has(lower, "what can i do for you"@)
            ||| has(lower, "is there anything else i can help you with"@)
        },
{
}

/// The system prompt comes first in any case; a summary that is not blank follows it as
/// it stands, and a blank one adds nothing.
pub proof fn summaries_follow_the_prompt(prompt: Seq<char>, summary: Option<Seq<char>>)
    ensures
        begins(prompt_with_summary(prompt, summary), prompt),
        summary matches Some(s) && trimmed(s).len() > 0 ==> has(
            prompt_with_summary(prompt, summary),
            summary->0,
        ),
        (summary matches Some(s) ==> trimmed(s).len() == 0) ==> prompt_with_summary(prompt, summary)
            == prompt,
{
    let whole = prompt_with_summary(prompt, summary);
    assert(whole.subrange(0, prompt.len() as int) =~= prompt);
    if let Some(s) = summary {
        if trimmed(s).len() > 0 {
            let k = (prompt + "\n\n## Prior conversation summary\n"@).len() as int;
            assert(whole.subrange(k, k + s.len()) =~= s);
            assert(stands_at(whole, s, k));
        }
    }
}

/// One more message is one more line of a transcript, under its role and cut after six
/// hundred characters, unless it is the result of a tool.
pub proof fn transcripts_hold_what_was_said(messages: Seq<RecordView>, m: RecordView)
    ensures
        transcript(seq![]).len() == 0,
        m.role == "tool_result"@ || m.role == "tool"@ ==> transcript(messages.push(m))
            == transcript(messages),
        m.role == "assistant"@ ==> transcript(messages.push(m)) == transcript(messages)
            + "[assistant] "@ + first_chars(m.content, 600) + "\n"@,
        m.role == "user"@ ==> transcript(messages.push(m)) == transcript(messages) + "[user] "@
            + first_chars(m.content, 600) + "\n"@,
{
    reveal_strlit("tool_result");
    reveal_strlit("tool");
    reveal_strlit("assistant");
    reveal_strlit("user");
    reveal_strlit("[");
    reveal_strlit("] ");
    reveal_strlit("[assistant] ");
    reveal_strlit("[user] ");
    assert("tool_result"@.len() == 11 && "tool"@.len() == 4 && "assistant"@.len() == 9
        && "user"@.len() == 4);
    assert("tool"@[0] == 't' && "user"@[0] == 'u');
    assert(messages.push(m).drop_last() =~= messages);
    let shown = first_chars(m.content, 600);
    let old = transcript(messages);
    assert("["@ + "assistant"@ + "] "@ =~= "[assistant] "@);
    assert("["@ + "user"@ + "] "@ =~= "[user] "@);
    assert(old + ("["@ + "assistant"@ + "] "@ + shown + "\n"@) =~= old + "[assistant] "@ + shown
        + "\n"@);
    assert(old + ("["@ + "user"@ + "] "@ + shown + "\n"@) =~= old + "[user] "@ + shown + "\n"@);
}

/// A compaction keeps the last thirty messages and archives all the others, in order: it
/// is their transcript that is summed up, cut after nine thousand characters. Nothing is
/// compacted where no more than thirty messages are there or nothing was said in the
/// others.
pub proof fn compactions_keep_the_last_thirty(messages: Seq<RecordView>)
    ensures
        messages.len() <= 30 ==> compaction_of(messages) is None,
        messages.len() > 30 ==> ({
            let n = messages.len() - 30;
            let said = first_chars(transcript(messages.take(n)), 9000);
            &&& trimmed(said).len() == 0 ==> compaction_of(messages) is None
            &&& trimmed(said).len() > 0 ==> (compaction_of(messages) matches Some(c)
                && c.archived.len() == n && (forall|i: int|
                0 <= i < n ==> #[trigger] c.archived[i] == messages[i].id) && ends(c.prompt, said))
        }),
{
    if messages.len() > 30 {
        let said = archived_transcript(messages);
        let prompt = summary_prompt(said);
        assert(prompt.subrange(prompt.len() - said.len(), prompt.len() as int) =~= said);
    }
}

/// What a summarizing model answered is the summary, without the white space around it;
/// a blank answer or a call is none.
pub proof fn summaries_are_answers(reply: ResponseView)
    ensures
        reply matches ResponseView::Text(text) && trimmed(text).len() > 0 ==> summary_in(reply)
            == Some(trimmed(reply->Text_0)),
        reply matches ResponseView::Text(text) && trimmed(text).len() == 0 ==> summary_in(
            reply,
        ) is None,
        reply is ToolCalls ==> summary_in(reply) is None,
{
}

/// The summary in the reply of a summarizing model, where there is one.
pub open spec fn summary_in(reply: ResponseView) -> Option<Seq<char>> {
    match reply {
        ResponseView::Text(text) => if trimmed(text).len() == 0 {
            None
        } else {
            Some(trimmed(text))
        },
        ResponseView::ToolCalls(_) => None,
    }
}

/// Those who listen are told which session was compacted in which run, and how many
/// messages were archived.
pub proof fn compactions_are_told(run_id: Seq<char>, session_id: Seq<char>, archived: int)
    ensures
        compacted_tree(run_id, session_id, archived).at("type"@) == Json::Str(
            "session.compacted"@,
        ),
        compacted_tree(run_id, session_id, archived).at("run_id"@) == Json::Str(run_id),
        compacted_tree(run_id, session_id, archived).at("session_id"@) == Json::Str(session_id),
        compacted_tree(run_id, session_id, archived).at("archived_messages"@) == Json::Num(archived),
{
    broadcast use lemma_lookup_push;

    lemma_compacted_names();
}

/// What an agent is told begins with its own prompt, and then says where it runs.
pub proof fn prompts_say_where_the_agent_runs(prompt: Seq<char>)
    ensures
        environment_note(false)
            == "\n\nEnvironment: You are running on Linux/Unix. The shell_exec tool runs commands via sh -c."@,
        begins(
            environment_note(true),
            "\n\nEnvironment: You are running on Windows. The shell_exec tool runs commands via cmd.exe (cmd /C)."@,
        ),
{
    reveal_strlit(
        "\n\nEnvironment: You are running on Windows. The shell_exec tool runs commands via cmd.exe (cmd /C).",
    );
    reveal_strlit(
        "\n\nEnvironment: You are running on Windows. The shell_exec tool runs commands via cmd.exe (cmd /C). Use Windows command syntax (e.g. `dir`, `type file.txt`, `echo %VAR%`, `where python`, `date /t`, `time /t`). Do NOT use Unix syntax like `ls -la`, `cat`, `grep`, `env`, `TZ=... date`, or `export VAR=value`. Use PowerShell syntax only if explicitly needed via `powershell -Command \"...\"`.",
    );
    let note = environment_note(true);
    let front =
        "\n\nEnvironment: You are running on Windows. The shell_exec tool runs commands via cmd.exe (cmd /C)."@;
    assert(note.subrange(0, front.len() as int) =~= front);
}

/// A call of a tool that there is none of, or with arguments that cannot be read, says so.
pub proof fn failed_calls_say_why(name: String)
    ensures
        CallError::NotFound(name).says() == "Tool not found: "@ + name@,
        CallError::BadArguments.says() == "Failed to parse tool arguments as JSON"@,
{
}

} // verus!
