//! The client of an OpenAI-compatible chat service: what is sent, and how whole
//! and streamed replies are read.
use vstd::prelude::*;

use crate::config::{ModelProfile, ProfileView};
use crate::text::{cat, cat3, cat4, owned, str_eq};
use crate::tools::{schema_views, SchemaView, ToolSchema};
use crate::value::{
    json_contents, json_document, json_from_str, json_string, json_text, json_to_string, lemma_find,
    lemma_lookup_push, no_fields, trees, Data, Fields, Json,
};

verus! {

/// A reply: a text, or calls of tools.
#[derive(Debug)]
pub enum LlmResponse {
    Text(String),
    ToolCalls(Vec<ToolCallRequest>),
}

/// A call of a tool that the model asks for.
#[derive(Debug)]
pub struct ToolCallRequest {
    pub id: String,
    pub name: String,
    pub arguments: serde_json::Value,
}

/// What a call of a tool says.
pub struct CallView {
    pub id: Seq<char>,
    pub name: Seq<char>,
    pub arguments: Json,
}

impl View for ToolCallRequest {
    type V = CallView;

    open spec fn view(&self) -> CallView {
        CallView { id: self.id@, name: self.name@, arguments: json_contents(self.arguments) }
    }
}

/// What a list of calls says.
pub open spec fn call_views(v: Seq<ToolCallRequest>) -> Seq<CallView> {
    Seq::new(v.len(), |i: int| v[i]@)
}

/// What a reply says.
pub enum ResponseView {
    Text(Seq<char>),
    ToolCalls(Seq<CallView>),
}

impl View for LlmResponse {
    type V = ResponseView;

    open spec fn view(&self) -> ResponseView {
        match self {
            LlmResponse::Text(s) => ResponseView::Text(s@),
            LlmResponse::ToolCalls(calls) => ResponseView::ToolCalls(call_views(calls@)),
        }
    }
}

/// A message of the conversation that is sent to the model.
#[derive(Debug)]
pub enum ChatMessage {
    User(String),
    Assistant { text: String, tool_calls: Option<Vec<ToolCallRequest>> },
    ToolResult { call_id: String, content: String },
}

/// What a message says.
pub enum MessageView {
    User(Seq<char>),
    Assistant { text: Seq<char>, tool_calls: Option<Seq<CallView>> },
    ToolResult { call_id: Seq<char>, content: Seq<char> },
}

impl View for ChatMessage {
    type V = MessageView;

    open spec fn view(&self) -> MessageView {
        match self {
            ChatMessage::User(s) => MessageView::User(s@),
            ChatMessage::Assistant { text, tool_calls } => MessageView::Assistant {
                text: text@,
                tool_calls: match tool_calls {
                    Some(calls) => Some(call_views(calls@)),
                    None => None,
                },
            },
            ChatMessage::ToolResult { call_id, content } => MessageView::ToolResult {
                call_id: call_id@,
                content: content@,
            },
        }
    }
}

/// What a list of messages says.
pub open spec fn message_views(v: Seq<ChatMessage>) -> Seq<MessageView> {
    Seq::new(v.len(), |i: int| v[i]@)
}

/// A call as it is sent: the arguments as a JSON text.
pub open spec fn wire_call(call: CallView) -> Json {
    Json::Table(
        no_fields().push(("id"@, Json::Str(call.id))).push(("type"@, Json::Str("function"@))).push(
            (
                "function"@,
                Json::Table(
                    no_fields().push(("name"@, Json::Str(call.name))).push(
                        ("arguments"@, Json::Str(json_text(call.arguments))),
                    ),
                ),
            ),
        ),
    )
}

/// A message as it is sent. Its content is a text in any case.
pub open spec fn wire_message(m: MessageView) -> Json {
    match m {
        MessageView::User(s) => Json::Table(
            no_fields().push(("role"@, Json::Str("user"@))).push(("content"@, Json::Str(s))),
        ),
        MessageView::Assistant { text, tool_calls: Some(calls) } => Json::Table(
            no_fields().push(("role"@, Json::Str("assistant"@))).push(
                ("content"@, Json::Str(text)),
            ).push(
                ("tool_calls"@, Json::List(Seq::new(calls.len(), |i: int| wire_call(calls[i])))),
            ),
        ),
        MessageView::Assistant { text, tool_calls: None } => Json::Table(
            no_fields().push(("role"@, Json::Str("assistant"@))).push(("content"@, Json::Str(text))),
        ),
        MessageView::ToolResult { call_id, content } => Json::Table(
            no_fields().push(("role"@, Json::Str("tool"@))).push(
                ("tool_call_id"@, Json::Str(call_id)),
            ).push(("content"@, Json::Str(content))),
        ),
    }
}

/// A tool as it is offered.
pub open spec fn wire_tool(t: SchemaView) -> Json {
    Json::Table(
        no_fields().push(("type"@, Json::Str("function"@))).push(
            (
                "function"@,
                Json::Table(
                    no_fields().push(("name"@, Json::Str(t.name))).push(
                        ("description"@, Json::Str(t.description)),
                    ).push(("parameters"@, t.parameters)),
                ),
            ),
        ),
    )
}

/// The messages as they are sent: first the system prompt, then the
/// conversation.
pub open spec fn wire_messages(system_prompt: Seq<char>, messages: Seq<MessageView>) -> Seq<Json> {
    seq![
        Json::Table(
            no_fields().push(("role"@, Json::Str("system"@))).push(
                ("content"@, Json::Str(system_prompt)),
            ),
        ),
    ] + Seq::new(messages.len(), |i: int| wire_message(messages[i]))
}

/// The content of every message that is sent is a text.
pub proof fn contents_are_texts(
    system_prompt: Seq<char>,
    messages: Seq<MessageView>,
    i: int,
)
    requires
        0 <= i < wire_messages(system_prompt, messages).len(),
    ensures
        wire_messages(system_prompt, messages)[i].at("content"@) is Str,
{
    reveal_strlit("role");
    reveal_strlit("content");
    reveal_strlit("tool_call_id");
    let m = wire_messages(system_prompt, messages)[i];
    let fields = m->Table_0;
    assert("role"@.len() != "content"@.len());
    assert("tool_call_id"@.len() != "content"@.len());
    if i > 0 && messages[i - 1] is ToolResult {
        lemma_find(fields, 2, "content"@);
    } else {
        lemma_find(fields, 1, "content"@);
    }
}

/// The body of a completion request.
pub open spec fn request_body(
    model: Seq<char>,
    system_prompt: Seq<char>,
    messages: Seq<MessageView>,
    tools: Seq<SchemaView>,
    stream: bool,
) -> Json {
    Json::Table(
        no_fields().push(("model"@, Json::Str(model))).push(
            ("messages"@, Json::List(wire_messages(system_prompt, messages))),
        ).push(
            ("tools"@, Json::List(Seq::new(tools.len(), |i: int| wire_tool(tools[i])))),
        ).push(("tool_choice"@, Json::Str("auto"@))).push(("stream"@, Json::Bool(stream))),
    )
}

/// A call as it is sent.
fn build_call(call: &ToolCallRequest) -> (r: Data)
    ensures
        r@ == wire_call(call@),
{
    let mut function = Fields::new();
    function.put_str("name", call.name.as_str());
    function.put_str("arguments", json_to_string(&call.arguments).as_str());
    let mut f = Fields::new();
    f.put_str("id", call.id.as_str());
    f.put_str("type", "function");
    f.put("function", function.done());
    f.done()
}

/// Calls as they are sent.
fn build_calls(calls: &Vec<ToolCallRequest>) -> (r: Data)
    ensures
        r@ == Json::List(Seq::new(calls@.len(), |i: int| wire_call(call_views(calls@)[i]))),
{
    let mut out: Vec<Data> = Vec::new();
    for i in 0..calls.len()
        invariant
            out@.len() == i,
            forall|j: int| 0 <= j < i ==> #[trigger] out@[j]@ == wire_call(call_views(calls@)[j]),
    {
        out.push(build_call(&calls[i]));
    }
    proof {
        assert(trees(out@) =~= Seq::new(
            calls@.len(),
            |i: int| wire_call(call_views(calls@)[i]),
        ));
    }
    Data::list(out)
}

/// A message as it is sent.
fn build_message(m: &ChatMessage) -> (r: Data)
    ensures
        r@ == wire_message(m@),
{
    let mut f = Fields::new();
    match m {
        ChatMessage::User(content) => {
            f.put_str("role", "user");
            f.put_str("content", content.as_str());
        },
        ChatMessage::Assistant { text, tool_calls } => {
            f.put_str("role", "assistant");
            match tool_calls {
                Some(calls) => {
                    f.put_str("content", text.as_str());
                    f.put("tool_calls", build_calls(calls));
                },
                None => f.put_str("content", text.as_str()),
            }
        },
        ChatMessage::ToolResult { call_id, content } => {
            f.put_str("role", "tool");
            f.put_str("tool_call_id", call_id.as_str());
            f.put_str("content", content.as_str());
        },
    }
    f.done()
}

/// A tool as it is offered.
fn build_tool(t: &ToolSchema) -> (r: Data)
    ensures
        r@ == wire_tool(t@),
{
    let mut function = Fields::new();
    function.put_str("name", t.name.as_str());
    function.put_str("description", t.description.as_str());
    function.put("parameters", t.parameters.clone());
    let mut f = Fields::new();
    f.put_str("type", "function");
    f.put("function", function.done());
    f.done()
}

/// The body of a completion request: the system prompt, the conversation with
/// its tool calls, and the tools on offer.
pub fn build_request(
    model: &str,
    system_prompt: &str,
    messages: &Vec<ChatMessage>,
    tools: &Vec<ToolSchema>,
    stream: bool,
) -> (r: Data)
    ensures
        r@ == request_body(
            model@,
            system_prompt@,
            message_views(messages@),
            schema_views(tools@),
            stream,
        ),
{
    let mut system = Fields::new();
    system.put_str("role", "system");
    system.put_str("content", system_prompt);
    let mut wire: Vec<Data> = Vec::new();
    wire.push(system.done());
    let ghost want = wire_messages(system_prompt@, message_views(messages@));
    for i in 0..messages.len()
        invariant
            wire@.len() == i + 1,
            want == wire_messages(system_prompt@, message_views(messages@)),
            forall|j: int| 0 <= j <= i ==> #[trigger] wire@[j]@ == want[j],
    {
        wire.push(build_message(&messages[i]));
    }
    let mut defs: Vec<Data> = Vec::new();
    let ghost offered = schema_views(tools@);
    for i in 0..tools.len()
        invariant
            defs@.len() == i,
            offered == schema_views(tools@),
            forall|j: int| 0 <= j < i ==> #[trigger] defs@[j]@ == wire_tool(offered[j]),
    {
        defs.push(build_tool(&tools[i]));
    }
    proof {
        assert(trees(wire@) =~= want);
        assert(trees(defs@) =~= Seq::new(offered.len(), |i: int| wire_tool(offered[i])));
    }
    let mut f = Fields::new();
    f.put_str("model", model);
    f.put("messages", Data::list(wire));
    f.put("tools", Data::list(defs));
    f.put_str("tool_choice", "auto");
    f.put_bool("stream", stream);
    f.done()
}

/// The arguments that a model wrote: the JSON document they stand for, or the
/// text itself where they are none.
pub open spec fn arguments_of(text: Seq<char>) -> Json {
    match json_document(text) {
        Some(tree) => tree,
        None => Json::Str(text),
    }
}

/// The arguments that a model wrote.
pub fn parse_arguments(text: &str) -> (r: serde_json::Value)
    ensures
        json_contents(r) == arguments_of(text@),
{
    match json_from_str(text) {
        Ok(v) => v,
        Err(_) => json_string(text),
    }
}

/// A whole reply of the service.
#[derive(Debug)]
pub struct ChatResponse {
    pub choices: Vec<ChatChoice>,
}

/// One of the answers in a reply.
#[derive(Debug)]
pub struct ChatChoice {
    pub message: ChatMessageResponse,
}

/// The message of an answer.
#[derive(Debug)]
pub struct ChatMessageResponse {
    pub content: Option<String>,
    pub tool_calls: Vec<ChatToolCall>,
}

/// A tool call in an answer.
#[derive(Debug)]
pub struct ChatToolCall {
    pub id: String,
    pub function: ChatToolFunction,
}

/// The tool that is called, with the arguments as a text.
#[derive(Debug)]
pub struct ChatToolFunction {
    pub name: String,
    pub arguments: String,
}

/// What goes wrong with a language model.
#[derive(Debug)]
pub enum LlmError {
    /// A reply without an answer.
    Empty,
    /// The environment variable that should hold the key is not set.
    EnvNotSet(String),
    /// There is no key.
    NoKey,
    /// There is no client for the provider.
    Unsupported(String),
}

impl LlmError {
    /// What the error says.
    pub open spec fn says(self) -> Seq<char> {
        match self {
            LlmError::Empty => "Empty response from chat completion"@,
            LlmError::EnvNotSet(name) => "Environment variable "@ + name@ + " not set"@,
            LlmError::NoKey => "No API key provided for OpenAI"@,
            LlmError::Unsupported(provider) => "Unsupported provider: "@ + provider@,
        }
    }

    /// What the error says.
    pub fn message(&self) -> (r: String)
        ensures
            r@ == self.says(),
    {
        match self {
            LlmError::Empty => owned("Empty response from chat completion"),
            LlmError::EnvNotSet(name) => cat3("Environment variable ", name.as_str(), " not set"),
            LlmError::NoKey => owned("No API key provided for OpenAI"),
            LlmError::Unsupported(provider) => cat("Unsupported provider: ", provider.as_str()),
        }
    }
}

/// The call that an answer asks for.
pub open spec fn asked_call(call: ChatToolCall) -> CallView {
    CallView {
        id: call.id@,
        name: call.function.name@,
        arguments: arguments_of(call.function.arguments@),
    }
}

/// What an answer says: its tool calls where it has any, else its text.
pub open spec fn answer(message: ChatMessageResponse) -> ResponseView {
    let calls = message.tool_calls@;
    if calls.len() > 0 {
        ResponseView::ToolCalls(Seq::new(calls.len(), |i: int| asked_call(calls[i])))
    } else {
        ResponseView::Text(
            match message.content {
                Some(s) => s@,
                None => seq![],
            },
        )
    }
}

/// Reads an answer. There must be one.
pub fn parse_choice(message: Option<&ChatMessageResponse>) -> (r: Result<LlmResponse, LlmError>)
    ensures
        match message {
            Some(m) => r is Ok && r->Ok_0@ == answer(*m),
            None => r == Err::<LlmResponse, LlmError>(LlmError::Empty),
        },
{
    match message {
        None => Err(LlmError::Empty),
        Some(m) => {
            if m.tool_calls.len() > 0 {
                let mut calls: Vec<ToolCallRequest> = Vec::new();
                for i in 0..m.tool_calls.len()
                    invariant
                        calls@.len() == i,
                        forall|j: int|
                            0 <= j < i ==> #[trigger] calls@[j]@ == asked_call(m.tool_calls@[j]),
                {
                    let call = &m.tool_calls[i];
                    calls.push(
                        ToolCallRequest {
                            id: call.id.clone(),
                            name: call.function.name.clone(),
                            arguments: parse_arguments(call.function.arguments.as_str()),
                        },
                    );
                }
                proof {
                    assert(call_views(calls@) =~= Seq::new(
                        m.tool_calls@.len(),
                        |i: int| asked_call(m.tool_calls@[i]),
                    ));
                }
                Ok(LlmResponse::ToolCalls(calls))
            } else {
                match &m.content {
                    Some(s) => Ok(LlmResponse::Text(s.clone())),
                    None => {
                        let s = String::new();
                        proof {
                            assert(s@ =~= seq![]);
                        }
                        Ok(LlmResponse::Text(s))
                    },
                }
            }
        },
    }
}

/// Reads the first answer of a whole reply.
pub fn parse_response(reply: &ChatResponse) -> (r: Result<LlmResponse, LlmError>)
    ensures
        if reply.choices@.len() > 0 {
            r is Ok && r->Ok_0@ == answer(reply.choices@[0].message)
        } else {
            r == Err::<LlmResponse, LlmError>(LlmError::Empty)
        },
{
    if reply.choices.len() > 0 {
        parse_choice(Some(&reply.choices[0].message))
    } else {
        parse_choice(None)
    }
}

/// What a failed completion is reported as.
pub fn failure_message(status: &str, text: &str) -> (r: String)
    ensures
        r@ == "Chat completion failed ("@ + status@ + "): "@ + text@,
{
    cat4("Chat completion failed (", status, "): ", text)
}

/// How the service is reached.
#[derive(Debug)]
pub struct OpenAiClient {
    pub api_key: String,
    pub base_url: String,
}

impl OpenAiClient {
    /// The address of the completions.
    pub fn completions_url(&self) -> (r: String)
        ensures
            r@ == self.base_url@ + "/chat/completions"@,
    {
        cat(self.base_url.as_str(), "/chat/completions")
    }
}

/// The services that there is a client for.
#[derive(Debug)]
pub enum LlmProvider {
    OpenAi(OpenAiClient),
}

/// The key of a profile: its own, else the value of the environment variable
/// that it names.
pub open spec fn key_of(profile: ProfileView, env: Option<Seq<char>>) -> Option<Seq<char>> {
    if profile.api_key is Some {
        profile.api_key
    } else if profile.api_key_env is Some {
        env
    } else {
        None
    }
}

/// The address of the service of a profile.
pub open spec fn base_url_of(profile: ProfileView) -> Seq<char> {
    match profile.base_url {
        Some(url) => url,
        None => "https://api.openai.com/v1"@,
    }
}

impl LlmProvider {
    /// The client of a profile. `env` is the value of the environment variable
    /// that the profile names for its key, where it names one that is set.
    pub fn from_config(profile: &ModelProfile, env: Option<&str>) -> (r: Result<
        LlmProvider,
        LlmError,
    >)
        ensures
            ({
                let p = profile@;
                let value = match env {
                    Some(s) => Some(s@),
                    None => None,
                };
                if p.provider != "openai"@ {
                    r matches Err(LlmError::Unsupported(name)) && name@ == p.provider
                } else {
                    match key_of(p, value) {
                        Some(key) => r matches Ok(LlmProvider::OpenAi(client)) && client.api_key@
                            == key && client.base_url@ == base_url_of(p),
                        None => match p.api_key_env {
                            Some(name) => r matches Err(LlmError::EnvNotSet(n)) && n@ == name,
                            None => r matches Err(LlmError::NoKey),
                        },
                    }
                }
            }),
    {
        if !str_eq(profile.provider.as_str(), "openai") {
            return Err(LlmError::Unsupported(profile.provider.clone()));
        }
        let api_key = match &profile.api_key {
            Some(key) => key.clone(),
            None => match &profile.api_key_env {
                Some(name) => match env {
                    Some(value) => owned(value),
                    None => {
                        return Err(LlmError::EnvNotSet(name.clone()));
                    },
                },
                None => {
                    return Err(LlmError::NoKey);
                },
            },
        };
        let base_url = match &profile.base_url {
            Some(url) => url.clone(),
            None => owned("https://api.openai.com/v1"),
        };
        Ok(LlmProvider::OpenAi(OpenAiClient { api_key, base_url }))
    }
}

/// The names of the fields of a request differ.
proof fn lemma_wire_names()
    ensures
        "role"@ != "content"@,
        "role"@ != "tool_calls"@,
        "role"@ != "tool_call_id"@,
        "role"@ != "id"@,
        "role"@ != "type"@,
        "role"@ != "function"@,
        "role"@ != "name"@,
        "role"@ != "arguments"@,
        "role"@ != "description"@,
        "role"@ != "parameters"@,
        "role"@ != "model"@,
        "role"@ != "messages"@,
        "role"@ != "tools"@,
        "role"@ != "tool_choice"@,
        "role"@ != "stream"@,
        "content"@ != "tool_calls"@,
        "content"@ != "tool_call_id"@,
        "content"@ != "id"@,
        "content"@ != "type"@,
        "content"@ != "function"@,
        "content"@ != "name"@,
        "content"@ != "arguments"@,
        "content"@ != "description"@,
        "content"@ != "parameters"@,
        "content"@ != "model"@,
        "content"@ != "messages"@,
        "content"@ != "tools"@,
        "content"@ != "tool_choice"@,
        "content"@ != "stream"@,
        "tool_calls"@ != "tool_call_id"@,
        "tool_calls"@ != "id"@,
        "tool_calls"@ != "type"@,
        "tool_calls"@ != "function"@,
        "tool_calls"@ != "name"@,
        "tool_calls"@ != "arguments"@,
        "tool_calls"@ != "description"@,
        "tool_calls"@ != "parameters"@,
        "tool_calls"@ != "model"@,
        "tool_calls"@ != "messages"@,
        "tool_calls"@ != "tools"@,
        "tool_calls"@ != "tool_choice"@,
        "tool_calls"@ != "stream"@,
        "tool_call_id"@ != "id"@,
        "tool_call_id"@ != "type"@,
        "tool_call_id"@ != "function"@,
        "tool_call_id"@ != "name"@,
        "tool_call_id"@ != "arguments"@,
        "tool_call_id"@ != "description"@,
        "tool_call_id"@ != "parameters"@,
        "tool_call_id"@ != "model"@,
        "tool_call_id"@ != "messages"@,
        "tool_call_id"@ != "tools"@,
        "tool_call_id"@ != "tool_choice"@,
        "tool_call_id"@ != "stream"@,
        "id"@ != "type"@,
        "id"@ != "function"@,
        "id"@ != "name"@,
        "id"@ != "arguments"@,
        "id"@ != "description"@,
        "id"@ != "parameters"@,
        "id"@ != "model"@,
        "id"@ != "messages"@,
        "id"@ != "tools"@,
        "id"@ != "tool_choice"@,
        "id"@ != "stream"@,
        "type"@ != "function"@,
        "type"@ != "name"@,
        "type"@ != "arguments"@,
        "type"@ != "description"@,
        "type"@ != "parameters"@,
        "type"@ != "model"@,
        "type"@ != "messages"@,
        "type"@ != "tools"@,
        "type"@ != "tool_choice"@,
        "type"@ != "stream"@,
        "function"@ != "name"@,
        "function"@ != "arguments"@,
        "function"@ != "description"@,
        "function"@ != "parameters"@,
        "function"@ != "model"@,
        "function"@ != "messages"@,
        "function"@ != "tools"@,
        "function"@ != "tool_choice"@,
        "function"@ != "stream"@,
        "name"@ != "arguments"@,
        "name"@ != "description"@,
        "name"@ != "parameters"@,
        "name"@ != "model"@,
        "name"@ != "messages"@,
        "name"@ != "tools"@,
        "name"@ != "tool_choice"@,
        "name"@ != "stream"@,
        "arguments"@ != "description"@,
        "arguments"@ != "parameters"@,
        "arguments"@ != "model"@,
        "arguments"@ != "messages"@,
        "arguments"@ != "tools"@,
        "arguments"@ != "tool_choice"@,
        "arguments"@ != "stream"@,
        "description"@ != "parameters"@,
        "description"@ != "model"@,
        "description"@ != "messages"@,
        "description"@ != "tools"@,
        "description"@ != "tool_choice"@,
        "description"@ != "stream"@,
        "parameters"@ != "model"@,
        "parameters"@ != "messages"@,
        "parameters"@ != "tools"@,
        "parameters"@ != "tool_choice"@,
        "parameters"@ != "stream"@,
        "model"@ != "messages"@,
        "model"@ != "tools"@,
        "model"@ != "tool_choice"@,
        "model"@ != "stream"@,
        "messages"@ != "tools"@,
        "messages"@ != "tool_choice"@,
        "messages"@ != "stream"@,
        "tools"@ != "tool_choice"@,
        "tools"@ != "stream"@,
        "tool_choice"@ != "stream"@,
{
    reveal_strlit("role");
    reveal_strlit("content");
    reveal_strlit("tool_calls");
    reveal_strlit("tool_call_id");
    reveal_strlit("id");
    reveal_strlit("type");
    reveal_strlit("function");
    reveal_strlit("name");
    reveal_strlit("arguments");
    reveal_strlit("description");
    reveal_strlit("parameters");
    reveal_strlit("model");
    reveal_strlit("messages");
    reveal_strlit("tools");
    reveal_strlit("tool_choice");
    reveal_strlit("stream");
    assert("role"@.len() == 4);
    assert("content"@.len() == 7);
    assert("tool_calls"@.len() == 10);
    assert("tool_call_id"@.len() == 12);
    assert("id"@.len() == 2);
    assert("type"@.len() == 4);
    assert("function"@.len() == 8);
    assert("name"@.len() == 4);
    assert("arguments"@.len() == 9);
    assert("description"@.len() == 11);
    assert("parameters"@.len() == 10);
    assert("model"@.len() == 5);
    assert("messages"@.len() == 8);
    assert("tools"@.len() == 5);
    assert("tool_choice"@.len() == 11);
    assert("stream"@.len() == 6);
    assert("role"@[0] == 'r' && "type"@[0] == 't');
    assert("role"@[0] == 'r' && "name"@[0] == 'n');
    assert("tool_calls"@[0] == 't' && "parameters"@[0] == 'p');
    assert("type"@[0] == 't' && "name"@[0] == 'n');
    assert("function"@[0] == 'f' && "messages"@[0] == 'm');
    assert("description"@[0] == 'd' && "tool_choice"@[0] == 't');
    assert("model"@[0] == 'm' && "tools"@[0] == 't');
}


/// Tool calls are never dropped: an answer with tool calls is these calls, one for each,
/// in order, with their ids, names and arguments, whatever text stands beside them; only
/// an answer without calls is its text.
pub proof fn answers_keep_their_calls(message: ChatMessageResponse)
    ensures
        message.tool_calls@.len() > 0 ==> (answer(message) matches ResponseView::ToolCalls(calls)
            && calls.len() == message.tool_calls@.len() && forall|i: int|
            0 <= i < calls.len() ==> (#[trigger] calls[i]).id == message.tool_calls@[i].id@
                && calls[i].name == message.tool_calls@[i].function.name@ && calls[i].arguments
                == arguments_of(message.tool_calls@[i].function.arguments@)),
        message.tool_calls@.len() == 0 ==> (match message.content {
            Some(s) => answer(message) == ResponseView::Text(s@),
            None => answer(message) == ResponseView::Text(Seq::empty()),
        }),
{
}

/// The arguments of a call are the document that they stand for; what is no document is
/// kept as the text that it is.
pub proof fn arguments_are_read(text: Seq<char>)
    ensures
        json_document(text) matches Some(tree) ==> arguments_of(text) == tree,
        json_document(text) is None ==> arguments_of(text) == Json::Str(text),
{
}

/// A call is sent with its id, its name, and its arguments as a text.
pub proof fn calls_are_sent_whole(call: CallView)
    ensures
        wire_call(call).at("id"@) == Json::Str(call.id),
        wire_call(call).at("type"@) == Json::Str("function"@),
        wire_call(call).at("function"@).at("name"@) == Json::Str(call.name),
        wire_call(call).at("function"@).at("arguments"@) == Json::Str(json_text(call.arguments)),
{
    broadcast use lemma_lookup_push;

    lemma_wire_names();
}

/// Each message is sent as what it is: what the user wrote as the user's, an answer as
/// the assistant's, with all of its calls, and the result of a tool under the id of its
/// call.
pub proof fn messages_are_sent_whole(m: MessageView)
    ensures
        match m {
            MessageView::User(text) => wire_message(m).at("role"@) == Json::Str("user"@)
                && wire_message(m).at("content"@) == Json::Str(text),
            MessageView::Assistant { text, tool_calls } => wire_message(m).at("role"@) == Json::Str(
                "assistant"@,
            ) && wire_message(m).at("content"@) == Json::Str(text) && (match tool_calls {
                Some(calls) => wire_message(m).at("tool_calls"@) matches Json::List(sent)
                    && sent.len() == calls.len() && forall|i: int|
                    0 <= i < calls.len() ==> #[trigger] sent[i] == wire_call(calls[i]),
                None => wire_message(m).get("tool_calls"@) is None,
            }),
            MessageView::ToolResult { call_id, content } => wire_message(m).at("role"@)
                == Json::Str("tool"@) && wire_message(m).at("tool_call_id"@) == Json::Str(call_id)
                && wire_message(m).at("content"@) == Json::Str(content),
        },
{
    broadcast use lemma_lookup_push;

    lemma_wire_names();
}

/// A request asks the model for the conversation: the system prompt first, then every
/// message, in order; and it offers every tool, with its name, its description and its
/// parameters.
pub proof fn requests_hold_the_conversation(
    model: Seq<char>,
    system_prompt: Seq<char>,
    messages: Seq<MessageView>,
    tools: Seq<SchemaView>,
    stream: bool,
)
    ensures
        ({
            let body = request_body(model, system_prompt, messages, tools, stream);
            let sent = body.at("messages"@).elements();
            let offered = body.at("tools"@).elements();
            &&& body.at("model"@) == Json::Str(model)
            &&& body.at("stream"@) == Json::Bool(stream)
            &&& body.at("tool_choice"@) == Json::Str("auto"@)
            &&& sent.len() == messages.len() + 1
            &&& sent[0].at("role"@) == Json::Str("system"@)
            &&& sent[0].at("content"@) == Json::Str(system_prompt)
            &&& forall|i: int|
                0 <= i < messages.len() ==> sent[i + 1] == wire_message(#[trigger] messages[i])
            &&& offered.len() == tools.len()
            &&& forall|i: int|
                0 <= i < tools.len() ==> {
                    let function = (#[trigger] offered[i]).at("function"@);
                    &&& offered[i].at("type"@) == Json::Str("function"@)
                    &&& function.at("name"@) == Json::Str(tools[i].name)
                    &&& function.at("description"@) == Json::Str(tools[i].description)
                    &&& function.at("parameters"@) == tools[i].parameters
                }
        }),
{
    broadcast use lemma_lookup_push;

    lemma_wire_names();
    let body = request_body(model, system_prompt, messages, tools, stream);
    let offered = body.at("tools"@).elements();
    assert forall|i: int| 0 <= i < tools.len() implies ({
        let function = (#[trigger] offered[i]).at("function"@);
        &&& offered[i].at("type"@) == Json::Str("function"@)
        &&& function.at("name"@) == Json::Str(tools[i].name)
        &&& function.at("description"@) == Json::Str(tools[i].description)
        &&& function.at("parameters"@) == tools[i].parameters
    }) by {
        assert(offered[i] == wire_tool(tools[i]));
    }
}

/// The key of a profile is its own where it has one, whatever the environment holds;
/// else the value of the variable that it names; else there is none. Its service is the
/// one that it names, else that of OpenAI.
pub proof fn keys_are_chosen(profile: ProfileView, env: Option<Seq<char>>)
    ensures
        profile.api_key is Some ==> key_of(profile, env) == profile.api_key,
        profile.api_key is None && profile.api_key_env is Some ==> key_of(profile, env) == env,
        profile.api_key is None && profile.api_key_env is None ==> key_of(profile, env) is None,
        profile.base_url matches Some(url) ==> base_url_of(profile) == url,
        profile.base_url is None ==> base_url_of(profile) == "https://api.openai.com/v1"@,
{
}

/// What went wrong with a model is said with the name of what is missing or unknown.
pub proof fn model_failures_say_why(name: String)
    ensures
        LlmError::EnvNotSet(name).says() == "Environment variable "@ + name@ + " not set"@,
        LlmError::Unsupported(name).says() == "Unsupported provider: "@ + name@,
        LlmError::NoKey.says() == "No API key provided for OpenAI"@,
        LlmError::Empty.says() == "Empty response from chat completion"@,
{
}

} // verus!
