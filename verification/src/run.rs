//! A run of an agent, as a machine: each step takes what has happened and says
//! what is to be sent, stored and done next.
use vstd::prelude::*;

use crate::agent::{
    canned, is_canned_greeting, result_record, result_record_splits_back, split_at_bar, AgentConfig,
    AgentResponse, ToolCallInfo,
};
use crate::llm::{call_views, CallView, LlmResponse, ToolCallRequest};
use crate::permissions::{PermissionConfig, PermissionManager};
use crate::text::{
    cat, cat3, contains, first_chars, has, opt, owned, owned_opt, take_chars, trim, trimmed,
};
use crate::tools::PermissionMode;
use crate::value::{
    json_text, json_to_string, json_tree, lemma_lookup_push, no_fields, Data, Fields, Json,
};

verus! {

/// What a tool call that was made says.
pub struct InfoView {
    pub name: Seq<char>,
    pub arguments: Seq<char>,
    pub result: Option<Seq<char>>,
}

impl View for ToolCallInfo {
    type V = InfoView;

    open spec fn view(&self) -> InfoView {
        InfoView { name: self.name@, arguments: self.arguments@, result: opt(self.result) }
    }
}

/// What a list of tool calls says.
pub open spec fn info_views(v: Seq<ToolCallInfo>) -> Seq<InfoView> {
    Seq::new(v.len(), |i: int| v[i]@)
}

/// What an answer of an agent says.
pub struct AnswerView {
    pub session_id: Seq<char>,
    pub content: Seq<char>,
    pub tool_calls: Seq<InfoView>,
    pub tokens_used: Option<u32>,
    pub model_used: Option<Seq<char>>,
}

impl View for AgentResponse {
    type V = AnswerView;

    open spec fn view(&self) -> AnswerView {
        AnswerView {
            session_id: self.session_id@,
            content: self.content@,
            tool_calls: info_views(self.tool_calls@),
            tokens_used: self.tokens_used,
            model_used: opt(self.model_used),
        }
    }
}

/// What a run waits for.
#[derive(Debug, Clone, Copy, PartialEq, Eq, Structural)]
pub enum Phase {
    /// Whether the user has cancelled it.
    Check,
    /// The reply of the model.
    Complete,
    /// The tool of the call at hand.
    Execute,
    /// The request for an approval of the call at hand.
    Request,
    /// The decision on the call at hand.
    Await,
    /// The last message of the session.
    Last,
    /// Nothing: the run is over.
    Done,
}

/// What is to be sent or stored, in this order.
#[derive(Debug)]
pub enum Effect {
    /// An event for everybody who listens.
    Broadcast(Data),
    /// A message of the assistant.
    StoreText(String),
    /// The calls of the round, as a message of the assistant.
    StoreCalls,
    /// The result of the call of that id.
    StoreResult { call_id: String, content: String },
}

/// What an effect says.
pub enum EffectView {
    Broadcast(Json),
    StoreText(Seq<char>),
    StoreCalls,
    StoreResult { call_id: Seq<char>, content: Seq<char> },
}

impl View for Effect {
    type V = EffectView;

    open spec fn view(&self) -> EffectView {
        match self {
            Effect::Broadcast(d) => EffectView::Broadcast(d@),
            Effect::StoreText(s) => EffectView::StoreText(s@),
            Effect::StoreCalls => EffectView::StoreCalls,
            Effect::StoreResult { call_id, content } => EffectView::StoreResult {
                call_id: call_id@,
                content: content@,
            },
        }
    }
}

/// What a list of effects says.
pub open spec fn effect_views(v: Seq<Effect>) -> Seq<EffectView> {
    Seq::new(v.len(), |i: int| v[i]@)
}

/// What is to be done next.
#[derive(Debug)]
pub enum Action {
    /// See whether the user has cancelled the run.
    CheckCancelled,
    /// Ask the model to go on with the conversation.
    Complete,
    /// Run the tool on the arguments.
    Execute { tool: String, arguments: String },
    /// Request an approval of the call.
    RequestApproval { tool: String, arguments: String },
    /// Wait for the decision on the request of that id.
    AwaitApproval { id: String },
    /// Look up the last message of the session.
    FetchLast,
    /// Return the answer. A run that came to its end may leave a session that has
    /// to be compacted.
    Return { response: AgentResponse, compact: bool },
}

/// What an action says.
pub enum ActionView {
    CheckCancelled,
    Complete,
    Execute { tool: Seq<char>, arguments: Seq<char> },
    RequestApproval { tool: Seq<char>, arguments: Seq<char> },
    AwaitApproval { id: Seq<char> },
    FetchLast,
    Return { response: AnswerView, compact: bool },
}

impl View for Action {
    type V = ActionView;

    open spec fn view(&self) -> ActionView {
        match self {
            Action::CheckCancelled => ActionView::CheckCancelled,
            Action::Complete => ActionView::Complete,
            Action::Execute { tool, arguments } => ActionView::Execute {
                tool: tool@,
                arguments: arguments@,
            },
            Action::RequestApproval { tool, arguments } => ActionView::RequestApproval {
                tool: tool@,
                arguments: arguments@,
            },
            Action::AwaitApproval { id } => ActionView::AwaitApproval { id: id@ },
            Action::FetchLast => ActionView::FetchLast,
            Action::Return { response, compact } => ActionView::Return {
                response: response@,
                compact: *compact,
            },
        }
    }
}

/// A step: what is sent and stored, and then what is done.
#[derive(Debug)]
pub struct Step {
    pub effects: Vec<Effect>,
    pub action: Action,
}

/// The state of a run.
pub struct RunView {
    pub agent: Seq<char>,
    pub session: Seq<char>,
    pub run_id: Option<Seq<char>>,
    pub model: Seq<char>,
    pub yolo: bool,
    pub max_rounds: u32,
    pub round: u32,
    pub response_retries: u32,
    pub error_retries: u32,
    pub log: Seq<InfoView>,
    pub pending: Seq<CallView>,
    pub next: int,
    pub phase: Phase,
}

/// A state with what was sent and stored on the way to it, and what is done next.
pub struct Outcome {
    pub run: RunView,
    pub effects: Seq<EffectView>,
    pub action: ActionView,
}

/// The record of a call.
pub open spec fn info_of(call: CallView, result: Seq<char>) -> InfoView {
    InfoView { name: call.name, arguments: json_text(call.arguments), result: Some(result) }
}

impl RunView {
    /// The call at hand.
    pub open spec fn call(self) -> CallView {
        self.pending[self.next]
    }

    /// The id of the run, or the empty text.
    pub open spec fn run_text(self) -> Seq<char> {
        match self.run_id {
            Some(id) => id,
            None => seq![],
        }
    }

    /// Retries and rounds are limited; the calls that are done stand, in order,
    /// at the end of the log.
    pub open spec fn limits(self) -> bool {
        &&& self.response_retries <= 2
        &&& self.error_retries <= 2
        &&& self.round <= self.max_rounds
        &&& 0 <= self.next <= self.pending.len()
        &&& self.next <= self.log.len()
        &&& forall|i: int|
            0 <= i < self.next ==> {
                let info = #[trigger] self.log[self.log.len() - self.next + i];
                info.name == self.pending[i].name && info.arguments == json_text(
                    self.pending[i].arguments,
                ) && info.result is Some
            }
    }

    /// The limits hold, a round that goes on is one of those allowed, and a phase
    /// that is about a call has a call at hand.
    pub open spec fn wf(self) -> bool {
        &&& self.limits()
        &&& (self.phase == Phase::Check || self.phase == Phase::Complete) ==> self.round
            < self.max_rounds
        &&& (self.phase == Phase::Execute || self.phase == Phase::Request || self.phase
            == Phase::Await) ==> self.next < self.pending.len() && self.round < self.max_rounds
    }

    /// The answer with that content.
    pub open spec fn answer(self, content: Seq<char>) -> AnswerView {
        AnswerView {
            session_id: self.session,
            content,
            tool_calls: self.log,
            tokens_used: None,
            model_used: Some(self.model),
        }
    }

    /// The run ends with that content.
    pub open spec fn end(self, effects: Seq<EffectView>, content: Seq<char>) -> Outcome {
        Outcome {
            run: RunView { phase: Phase::Done, ..self },
            effects,
            action: ActionView::Return { response: self.answer(content), compact: true },
        }
    }

    /// The next round begins, where one is left; else the last message answers.
    pub open spec fn begin_round(self, effects: Seq<EffectView>) -> Outcome {
        if self.round < self.max_rounds {
            Outcome {
                run: RunView { phase: Phase::Check, ..self },
                effects,
                action: ActionView::CheckCancelled,
            }
        } else {
            Outcome {
                run: RunView { phase: Phase::Last, ..self },
                effects,
                action: ActionView::FetchLast,
            }
        }
    }

    /// The round is over.
    pub open spec fn end_round(self, effects: Seq<EffectView>) -> Outcome {
        RunView { round: (self.round + 1) as u32, ..self }.begin_round(effects)
    }

    /// The event that the call at hand is made.
    pub open spec fn call_event(self) -> EffectView {
        EffectView::Broadcast(
            Json::Table(
                no_fields().push(("type"@, Json::Str("tool_call"@))).push(
                    ("name"@, Json::Str(self.call().name)),
                ).push(("args"@, Json::Str(json_text(self.call().arguments)))).push(
                    ("run_id"@, Json::Str(self.run_text())),
                ).push(("session_id"@, Json::Str(self.session))),
            ),
        )
    }

    /// The event that the call at hand has that result, of which the first two
    /// thousand characters are shown.
    pub open spec fn result_event(self, result: Seq<char>) -> EffectView {
        EffectView::Broadcast(
            Json::Table(
                no_fields().push(("type"@, Json::Str("tool_result"@))).push(
                    ("name"@, Json::Str(self.call().name)),
                ).push(("result"@, Json::Str(first_chars(result, 2000)))).push(
                    ("run_id"@, Json::Str(self.run_text())),
                ).push(("session_id"@, Json::Str(self.session))),
            ),
        )
    }

    /// The event that an approval of the call at hand is requested.
    pub open spec fn approval_event(self, id: Seq<char>) -> EffectView {
        EffectView::Broadcast(
            Json::Table(
                no_fields().push(("type"@, Json::Str("approval_needed"@))).push(
                    ("approval_id"@, Json::Str(id)),
                ).push(("tool"@, Json::Str(self.call().name))).push(
                    ("arguments"@, self.call().arguments),
                ).push(("agent"@, Json::Str(self.agent))).push(
                    ("session_id"@, Json::Str(self.session)),
                ),
            ),
        )
    }

    /// The event that what was streamed of a reply is void, where the run has an
    /// id.
    pub open spec fn reset_events(self) -> Seq<EffectView> {
        match self.run_id {
            Some(id) => seq![
                EffectView::Broadcast(
                    Json::Table(
                        no_fields().push(("type"@, Json::Str("session.token_reset"@))).push(
                            ("run_id"@, Json::Str(id)),
                        ).push(("session_id"@, Json::Str(self.session))),
                    ),
                ),
            ],
            None => seq![],
        }
    }

    /// The event that the run was cancelled.
    pub open spec fn cancel_event(self) -> EffectView {
        EffectView::Broadcast(
            Json::Table(
                no_fields().push(("type"@, Json::Str("run_cancelled"@))).push(
                    ("run_id"@, Json::Str(self.run_text())),
                ).push(("session_id"@, Json::Str(self.session))),
            ),
        )
    }

    /// The call at hand is done, with that result.
    pub open spec fn recorded(self, result: Seq<char>) -> RunView {
        RunView { log: self.log.push(info_of(self.call(), result)), next: self.next + 1, ..self }
    }

    /// What is sent and stored when the call at hand is done.
    pub open spec fn record_effects(self, result: Seq<char>) -> Seq<EffectView> {
        seq![
            self.result_event(result),
            EffectView::StoreResult {
                call_id: self.call().id,
                content: result_record(self.call().id, result),
            },
        ]
    }

    /// What may be done with the call at hand.
    pub open spec fn mode(self, permissions: PermissionConfig) -> PermissionMode {
        if self.yolo {
            PermissionMode::Allow
        } else {
            permissions.mode(self.agent, self.call().name)
        }
    }

    /// The tool of the call at hand is run.
    pub open spec fn execute(self, effects: Seq<EffectView>) -> Outcome {
        Outcome {
            run: RunView { phase: Phase::Execute, ..self },
            effects,
            action: ActionView::Execute {
                tool: self.call().name,
                arguments: json_text(self.call().arguments),
            },
        }
    }

    /// Goes through the calls that are left: those that are denied by policy are
    /// recorded as such, up to the first that is run or has to be approved. After
    /// the last call the round is over.
    pub open spec fn go_on(
        self,
        permissions: PermissionConfig,
        effects: Seq<EffectView>,
    ) -> Outcome
        decreases self.pending.len() - self.next,
    {
        if 0 <= self.next < self.pending.len() {
            let told = effects.push(self.call_event());
            match self.mode(permissions) {
                PermissionMode::Allow | PermissionMode::Auto => self.execute(told),
                PermissionMode::Ask => Outcome {
                    run: RunView { phase: Phase::Request, ..self },
                    effects: told,
                    action: ActionView::RequestApproval {
                        tool: self.call().name,
                        arguments: json_text(self.call().arguments),
                    },
                },
                PermissionMode::Deny => self.recorded("Tool execution denied by policy"@).go_on(
                    permissions,
                    told + self.record_effects("Tool execution denied by policy"@),
                ),
            }
        } else {
            self.end_round(effects)
        }
    }

    /// The user has cancelled the run, or not.
    pub open spec fn on_checked(self, cancelled: bool) -> Outcome {
        if cancelled {
            Outcome {
                run: RunView { phase: Phase::Done, ..self },
                effects: seq![self.cancel_event()],
                action: ActionView::Return {
                    response: self.answer("Run cancelled by user."@),
                    compact: false,
                },
            }
        } else {
            Outcome {
                run: RunView { phase: Phase::Complete, ..self },
                effects: seq![],
                action: ActionView::Complete,
            }
        }
    }

    /// The model could not be asked. A rejection that speaks of reasoning content
    /// is tried again, twice at most.
    pub open spec fn on_failed(self, error: Seq<char>) -> Outcome {
        if has(error, "reasoning_content"@) && self.error_retries < 2 {
            RunView { error_retries: (self.error_retries + 1) as u32, ..self }.end_round(
                self.reset_events(),
            )
        } else {
            self.end(seq![], "I encountered an error processing your request: "@ + error)
        }
    }

    /// The model answered with a text. A blank one, or a canned greeting, is asked
    /// for again, twice at most.
    pub open spec fn on_text(self, text: Seq<char>) -> Outcome {
        if (trimmed(text).len() == 0 || canned(trimmed(text))) && self.response_retries < 2 {
            RunView { response_retries: (self.response_retries + 1) as u32, ..self }.end_round(
                self.reset_events(),
            )
        } else {
            self.end(seq![EffectView::StoreText(text)], text)
        }
    }

    /// The model asked for tool calls.
    pub open spec fn on_calls(
        self,
        calls: Seq<CallView>,
        permissions: PermissionConfig,
    ) -> Outcome {
        RunView { pending: calls, next: 0, ..self }.go_on(
            permissions,
            seq![EffectView::StoreCalls],
        )
    }

    /// The call at hand has that result.
    pub open spec fn on_result(self, result: Seq<char>, permissions: PermissionConfig) -> Outcome {
        self.recorded(result).go_on(permissions, self.record_effects(result))
    }

    /// An approval of the call at hand was requested.
    pub open spec fn on_requested(self, id: Seq<char>) -> Outcome {
        Outcome {
            run: RunView { phase: Phase::Await, ..self },
            effects: seq![self.approval_event(id)],
            action: ActionView::AwaitApproval { id },
        }
    }

    /// The call at hand was decided on.
    pub open spec fn on_decided(self, mode: PermissionMode, permissions: PermissionConfig) -> Outcome {
        if mode == PermissionMode::Allow {
            self.execute(seq![])
        } else {
            self.on_result("Tool execution denied by human approval"@, permissions)
        }
    }

    /// The last message of the session was looked up.
    pub open spec fn on_last(self, content: Option<Seq<char>>) -> Outcome {
        self.end(
            seq![],
            match content {
                Some(s) => s,
                None => "No response generated."@,
            },
        )
    }
}

/// Recording a call keeps the limits.
proof fn lemma_recorded(run: RunView, result: Seq<char>)
    requires
        run.limits(),
        run.next < run.pending.len(),
    ensures
        run.recorded(result).limits(),
{
    let after = run.recorded(result);
    assert forall|i: int| 0 <= i < after.next implies ({
        let info = #[trigger] after.log[after.log.len() - after.next + i];
        info.name == after.pending[i].name && info.arguments == json_text(
            after.pending[i].arguments,
        ) && info.result is Some
    }) by {
        if i < run.next {
            assert(after.log[after.log.len() - after.next + i] == run.log[run.log.len() - run.next
                + i]);
        }
    }
}

/// Going through the calls that are left keeps a run in order.
proof fn lemma_go_on(run: RunView, permissions: PermissionConfig, effects: Seq<EffectView>)
    requires
        run.limits(),
        run.round < run.max_rounds,
    ensures
        run.go_on(permissions, effects).run.wf(),
    decreases run.pending.len() - run.next,
{
    if run.next < run.pending.len() && run.mode(permissions) == PermissionMode::Deny {
        let result = "Tool execution denied by policy"@;
        lemma_recorded(run, result);
        lemma_go_on(
            run.recorded(result),
            permissions,
            effects.push(run.call_event()) + run.record_effects(result),
        );
    }
}

/// A run of an agent.
pub struct AgentRun {
    agent: String,
    session: String,
    run_id: Option<String>,
    model: String,
    yolo: bool,
    max_rounds: u32,
    round: u32,
    response_retries: u32,
    error_retries: u32,
    log: Vec<ToolCallInfo>,
    pending: Vec<ToolCallRequest>,
    next: usize,
    phase: Phase,
}

impl View for AgentRun {
    type V = RunView;

    closed spec fn view(&self) -> RunView {
        RunView {
            agent: self.agent@,
            session: self.session@,
            run_id: opt(self.run_id),
            model: self.model@,
            yolo: self.yolo,
            max_rounds: self.max_rounds,
            round: self.round,
            response_retries: self.response_retries,
            error_retries: self.error_retries,
            log: info_views(self.log@),
            pending: call_views(self.pending@),
            next: self.next as int,
            phase: self.phase,
        }
    }
}

/// Whether a step is what an outcome says.
pub open spec fn is_outcome(run: RunView, step: Step, outcome: Outcome) -> bool {
    run == outcome.run && effect_views(step.effects@) == outcome.effects && step.action@
        == outcome.action
}

/// The state in which a run begins.
pub open spec fn fresh(
    agent: Seq<char>,
    session: Seq<char>,
    run_id: Option<Seq<char>>,
    model: Seq<char>,
    yolo: bool,
    max_rounds: u32,
) -> RunView {
    RunView {
        agent,
        session,
        run_id,
        model,
        yolo,
        max_rounds,
        round: 0,
        response_retries: 0,
        error_retries: 0,
        log: seq![],
        pending: seq![],
        next: 0,
        phase: Phase::Check,
    }
}

/// Copies the record of the calls.
fn copy_log(log: &Vec<ToolCallInfo>) -> (r: Vec<ToolCallInfo>)
    ensures
        info_views(r@) == info_views(log@),
{
    let mut out: Vec<ToolCallInfo> = Vec::new();
    for i in 0..log.len()
        invariant
            out@.len() == i,
            forall|j: int| 0 <= j < i ==> #[trigger] out@[j]@ == log@[j]@,
    {
        let info = &log[i];
        out.push(
            ToolCallInfo {
                name: info.name.clone(),
                arguments: info.arguments.clone(),
                result: owned_opt(&info.result),
            },
        );
    }
    proof {
        assert(info_views(out@) =~= info_views(log@));
    }
    out
}

impl AgentRun {
    /// Begins a run.
    pub fn start(
        config: &AgentConfig,
        agent_id: &str,
        session_id: &str,
        run_id: &Option<String>,
        model: &str,
    ) -> (r: (AgentRun, Step))
        ensures
            r.0@.wf(),
            is_outcome(
                r.0@,
                r.1,
                fresh(
                    agent_id@,
                    session_id@,
                    opt(*run_id),
                    model@,
                    config.yolo_mode,
                    config.max_tool_rounds,
                ).begin_round(seq![]),
            ),
    {
        let mut run = AgentRun {
            agent: owned(agent_id),
            session: owned(session_id),
            run_id: owned_opt(run_id),
            model: owned(model),
            yolo: config.yolo_mode,
            max_rounds: config.max_tool_rounds,
            round: 0,
            response_retries: 0,
            error_retries: 0,
            log: Vec::new(),
            pending: Vec::new(),
            next: 0,
            phase: Phase::Check,
        };
        proof {
            assert(run@.log =~= seq![]);
            assert(run@.pending =~= seq![]);
        }
        let effects: Vec<Effect> = Vec::new();
        proof {
            assert(effect_views(effects@) =~= seq![]);
        }
        let action = run.begin_round();
        (run, Step { effects, action })
    }

    /// What the run waits for.
    pub fn phase(&self) -> (r: Phase)
        ensures
            r == self@.phase,
    {
        self.phase
    }

    /// The calls of the round.
    pub fn calls(&self) -> (r: &Vec<ToolCallRequest>)
        ensures
            call_views(r@) == self@.pending,
    {
        &self.pending
    }

    /// Begins the next round, where one is left.
    fn begin_round(&mut self) -> (r: Action)
        ensures
            forall|effects: Seq<EffectView>|
                {
                    let out = #[trigger] old(self)@.begin_round(effects);
                    final(self)@ == out.run && r@ == out.action && effects == out.effects
                },
    {
        if self.round < self.max_rounds {
            self.phase = Phase::Check;
            Action::CheckCancelled
        } else {
            self.phase = Phase::Last;
            Action::FetchLast
        }
    }

    /// Ends the round.
    fn end_round(&mut self) -> (r: Action)
        requires
            old(self)@.round < old(self)@.max_rounds,
        ensures
            forall|effects: Seq<EffectView>|
                {
                    let out = #[trigger] old(self)@.end_round(effects);
                    final(self)@ == out.run && r@ == out.action && effects == out.effects
                },
    {
        self.round = self.round + 1;
        self.begin_round()
    }

    /// The answer with that content.
    fn answer(&self, content: String) -> (r: AgentResponse)
        ensures
            r@ == self@.answer(content@),
    {
        AgentResponse {
            session_id: self.session.clone(),
            content,
            tool_calls: copy_log(&self.log),
            tokens_used: None,
            model_used: Some(self.model.clone()),
        }
    }

    /// Ends the run.
    fn end(&mut self, content: String) -> (r: Action)
        ensures
            forall|effects: Seq<EffectView>|
                {
                    let out = #[trigger] old(self)@.end(effects, content@);
                    final(self)@ == out.run && r@ == out.action && effects == out.effects
                },
    {
        let response = self.answer(content);
        self.phase = Phase::Done;
        Action::Return { response, compact: true }
    }

    /// The id of the run, or the empty text.
    fn run_text(&self) -> (r: String)
        ensures
            r@ == self@.run_text(),
    {
        match &self.run_id {
            Some(id) => id.clone(),
            None => {
                let r = String::new();
                proof {
                    assert(r@ =~= seq![]);
                }
                r
            },
        }
    }

    /// The arguments of the call at hand.
    fn arguments(&self) -> (r: String)
        requires
            self@.next < self@.pending.len(),
        ensures
            r@ == json_text(self@.call().arguments),
    {
        json_to_string(&self.pending[self.next].arguments)
    }

    /// The event that the call at hand is made.
    fn call_event(&self) -> (r: Effect)
        requires
            self@.next < self@.pending.len(),
        ensures
            r@ == self@.call_event(),
    {
        let mut f = Fields::new();
        f.put_str("type", "tool_call");
        f.put_str("name", self.pending[self.next].name.as_str());
        f.put_str("args", self.arguments().as_str());
        f.put_str("run_id", self.run_text().as_str());
        f.put_str("session_id", self.session.as_str());
        Effect::Broadcast(f.done())
    }

    /// The event that the call at hand has that result.
    fn result_event(&self, result: &str) -> (r: Effect)
        requires
            self@.next < self@.pending.len(),
        ensures
            r@ == self@.result_event(result@),
    {
        let mut f = Fields::new();
        f.put_str("type", "tool_result");
        f.put_str("name", self.pending[self.next].name.as_str());
        f.put_str("result", take_chars(result, 2000).as_str());
        f.put_str("run_id", self.run_text().as_str());
        f.put_str("session_id", self.session.as_str());
        Effect::Broadcast(f.done())
    }

    /// The event that what was streamed of a reply is void.
    fn reset_events(&self) -> (r: Vec<Effect>)
        ensures
            effect_views(r@) == self@.reset_events(),
    {
        let mut effects: Vec<Effect> = Vec::new();
        match &self.run_id {
            Some(id) => {
                let mut f = Fields::new();
                f.put_str("type", "session.token_reset");
                f.put_str("run_id", id.as_str());
                f.put_str("session_id", self.session.as_str());
                effects.push(Effect::Broadcast(f.done()));
                proof {
                    assert(effect_views(effects@) =~= self@.reset_events());
                }
            },
            None => {
                proof {
                    assert(effect_views(effects@) =~= seq![]);
                }
            },
        }
        effects
    }

    /// Records the result of the call at hand.
    fn record(&mut self, result: &str, effects: &mut Vec<Effect>)
        requires
            old(self)@.next < old(self)@.pending.len(),
        ensures
            final(self)@ == old(self)@.recorded(result@),
            effect_views(final(effects)@) == effect_views(old(effects)@)
                + old(self)@.record_effects(result@),
    {
        let ghost run = self@;
        let ghost before = effects@;
        effects.push(self.result_event(result));
        let call_id = self.pending[self.next].id.clone();
        let content = cat3(call_id.as_str(), "|", result);
        let info = ToolCallInfo {
            name: self.pending[self.next].name.clone(),
            arguments: self.arguments(),
            result: Some(owned(result)),
        };
        let ghost logged = info@;
        let count: usize = self.pending.len();
        proof {
            assert(self.next < count);
        }
        self.log.push(info);
        effects.push(Effect::StoreResult { call_id, content });
        self.next = self.next + 1;
        proof {
            assert(self@.log =~= run.log.push(logged));
            assert(effect_views(effects@) =~= effect_views(before) + run.record_effects(result@));
        }
    }

    /// Goes through the calls that are left.
    fn go_on(&mut self, permissions: &PermissionManager, effects: &mut Vec<Effect>) -> (r: Action)
        requires
            old(self)@.limits(),
            old(self)@.round < old(self)@.max_rounds,
        ensures
            ({
                let out = old(self)@.go_on(permissions.config, effect_views(old(effects)@));
                &&& final(self)@ == out.run
                &&& effect_views(final(effects)@) == out.effects
                &&& r@ == out.action
            }),
            final(self)@.wf(),
    {
        let ghost goal = self@.go_on(permissions.config, effect_views(effects@));
        proof {
            lemma_go_on(self@, permissions.config, effect_views(effects@));
        }
        while self.next < self.pending.len()
            invariant
                self@.limits(),
                self@.round < self@.max_rounds,
                goal == old(self)@.go_on(permissions.config, effect_views(old(effects)@)),
                goal == self@.go_on(permissions.config, effect_views(effects@)),
                goal.run.wf(),
            decreases self.pending@.len() - self.next,
        {
            let ghost run = self@;
            let ghost before = effects@;
            effects.push(self.call_event());
            proof {
                assert(effect_views(effects@) =~= effect_views(before).push(run.call_event()));
            }
            let tool = self.pending[self.next].name.clone();
            let mode = if self.yolo {
                PermissionMode::Allow
            } else {
                permissions.check_permission(self.agent.as_str(), tool.as_str())
            };
            proof {
                assert(mode == run.mode(permissions.config));
            }
            match mode {
                PermissionMode::Allow | PermissionMode::Auto => {
                    let arguments = self.arguments();
                    self.phase = Phase::Execute;
                    return Action::Execute { tool, arguments };
                },
                PermissionMode::Ask => {
                    let arguments = self.arguments();
                    self.phase = Phase::Request;
                    return Action::RequestApproval { tool, arguments };
                },
                PermissionMode::Deny => {
                    proof {
                        lemma_recorded(run, "Tool execution denied by policy"@);
                    }
                    self.record("Tool execution denied by policy", effects);
                },
            }
        }
        self.end_round()
    }

    /// The user has cancelled the run, or not.
    pub fn on_checked(&mut self, cancelled: bool) -> (r: Step)
        requires
            old(self)@.wf(),
            old(self)@.phase == Phase::Check,
        ensures
            final(self)@.wf(),
            is_outcome(final(self)@, r, old(self)@.on_checked(cancelled)),
    {
        let ghost run = self@;
        let mut effects: Vec<Effect> = Vec::new();
        if cancelled {
            let mut f = Fields::new();
            f.put_str("type", "run_cancelled");
            f.put_str("run_id", self.run_text().as_str());
            f.put_str("session_id", self.session.as_str());
            effects.push(Effect::Broadcast(f.done()));
            let response = self.answer(owned("Run cancelled by user."));
            self.phase = Phase::Done;
            proof {
                assert(effect_views(effects@) =~= seq![run.cancel_event()]);
            }
            Step { effects, action: Action::Return { response, compact: false } }
        } else {
            self.phase = Phase::Complete;
            proof {
                assert(effect_views(effects@) =~= seq![]);
            }
            Step { effects, action: Action::Complete }
        }
    }

    /// The model could not be asked.
    pub fn on_failed(&mut self, error: &str) -> (r: Step)
        requires
            old(self)@.wf(),
            old(self)@.phase == Phase::Complete,
        ensures
            final(self)@.wf(),
            is_outcome(final(self)@, r, old(self)@.on_failed(error@)),
    {
        if contains(error, "reasoning_content") && self.error_retries < 2 {
            let effects = self.reset_events();
            self.error_retries = self.error_retries + 1;
            let action = self.end_round();
            Step { effects, action }
        } else {
            let effects: Vec<Effect> = Vec::new();
            proof {
                assert(effect_views(effects@) =~= seq![]);
            }
            let action = self.end(cat("I encountered an error processing your request: ", error));
            Step { effects, action }
        }
    }

    /// The model answered with a text.
    fn on_text(&mut self, text: String) -> (r: Step)
        requires
            old(self)@.wf(),
            old(self)@.phase == Phase::Complete,
        ensures
            final(self)@.wf(),
            is_outcome(final(self)@, r, old(self)@.on_text(text@)),
    {
        let t = trim(text.as_str());
        if (t.as_str().is_empty() || is_canned_greeting(t.as_str())) && self.response_retries < 2 {
            let effects = self.reset_events();
            self.response_retries = self.response_retries + 1;
            let action = self.end_round();
            Step { effects, action }
        } else {
            let mut effects: Vec<Effect> = Vec::new();
            effects.push(Effect::StoreText(text.clone()));
            proof {
                assert(effect_views(effects@) =~= seq![EffectView::StoreText(text@)]);
            }
            let action = self.end(text);
            Step { effects, action }
        }
    }

    /// The model answered.
    pub fn on_completed(&mut self, reply: LlmResponse, permissions: &PermissionManager) -> (r: Step)
        requires
            old(self)@.wf(),
            old(self)@.phase == Phase::Complete,
        ensures
            final(self)@.wf(),
            is_outcome(
                final(self)@,
                r,
                match reply {
                    LlmResponse::Text(text) => old(self)@.on_text(text@),
                    LlmResponse::ToolCalls(calls) => old(self)@.on_calls(
                        call_views(calls@),
                        permissions.config,
                    ),
                },
            ),
    {
        match reply {
            LlmResponse::Text(text) => self.on_text(text),
            LlmResponse::ToolCalls(calls) => {
                self.pending = calls;
                self.next = 0;
                let mut effects: Vec<Effect> = Vec::new();
                effects.push(Effect::StoreCalls);
                proof {
                    assert(effect_views(effects@) =~= seq![EffectView::StoreCalls]);
                }
                let action = self.go_on(permissions, &mut effects);
                Step { effects, action }
            },
        }
    }

    /// Records the result of the call at hand, and goes on.
    fn on_result(&mut self, result: &str, permissions: &PermissionManager) -> (r: Step)
        requires
            old(self)@.limits(),
            old(self)@.round < old(self)@.max_rounds,
            old(self)@.next < old(self)@.pending.len(),
        ensures
            final(self)@.wf(),
            is_outcome(final(self)@, r, old(self)@.on_result(result@, permissions.config)),
    {
        let mut effects: Vec<Effect> = Vec::new();
        proof {
            lemma_recorded(self@, result@);
        }
        self.record(result, &mut effects);
        proof {
            assert(effect_views(effects@) =~= old(self)@.record_effects(result@));
        }
        let action = self.go_on(permissions, &mut effects);
        Step { effects, action }
    }

    /// The tool ran, and gave a result or an error.
    pub fn on_executed(
        &mut self,
        result: Result<String, String>,
        permissions: &PermissionManager,
    ) -> (r: Step)
        requires
            old(self)@.wf(),
            old(self)@.phase == Phase::Execute,
        ensures
            final(self)@.wf(),
            is_outcome(
                final(self)@,
                r,
                old(self)@.on_result(
                    match result {
                        Ok(content) => content@,
                        Err(error) => "Error: "@ + error@,
                    },
                    permissions.config,
                ),
            ),
    {
        let text = match result {
            Ok(content) => content,
            Err(error) => cat("Error: ", error.as_str()),
        };
        self.on_result(text.as_str(), permissions)
    }

    /// An approval of the call at hand was requested.
    pub fn on_requested(&mut self, id: &str) -> (r: Step)
        requires
            old(self)@.wf(),
            old(self)@.phase == Phase::Request,
        ensures
            final(self)@.wf(),
            is_outcome(final(self)@, r, old(self)@.on_requested(id@)),
    {
        let ghost run = self@;
        let call = &self.pending[self.next];
        let mut f = Fields::new();
        f.put_str("type", "approval_needed");
        f.put_str("approval_id", id);
        f.put_str("tool", call.name.as_str());
        f.put("arguments", json_tree(&call.arguments));
        f.put_str("agent", self.agent.as_str());
        f.put_str("session_id", self.session.as_str());
        let mut effects: Vec<Effect> = Vec::new();
        effects.push(Effect::Broadcast(f.done()));
        proof {
            assert(effect_views(effects@) =~= seq![run.approval_event(id@)]);
        }
        self.phase = Phase::Await;
        Step { effects, action: Action::AwaitApproval { id: owned(id) } }
    }

    /// The call at hand was decided on.
    pub fn on_decided(&mut self, mode: PermissionMode, permissions: &PermissionManager) -> (r: Step)
        requires
            old(self)@.wf(),
            old(self)@.phase == Phase::Await,
        ensures
            final(self)@.wf(),
            is_outcome(final(self)@, r, old(self)@.on_decided(mode, permissions.config)),
    {
        if mode == PermissionMode::Allow {
            let effects: Vec<Effect> = Vec::new();
            proof {
                assert(effect_views(effects@) =~= seq![]);
            }
            let tool = self.pending[self.next].name.clone();
            let arguments = self.arguments();
            self.phase = Phase::Execute;
            Step { effects, action: Action::Execute { tool, arguments } }
        } else {
            self.on_result("Tool execution denied by human approval", permissions)
        }
    }

    /// The last message of the session was looked up.
    pub fn on_last(&mut self, content: Option<String>) -> (r: Step)
        requires
            old(self)@.wf(),
            old(self)@.phase == Phase::Last,
        ensures
            final(self)@.wf(),
            is_outcome(final(self)@, r, old(self)@.on_last(opt(content))),
    {
        let effects: Vec<Effect> = Vec::new();
        proof {
            assert(effect_views(effects@) =~= seq![]);
        }
        let action = self.end(
            match content {
                Some(s) => s,
                None => owned("No response generated."),
            },
        );
        Step { effects, action }
    }
}

/// A tool is run only where every call is waved through, where its permission
/// allows it, or where a person has allowed the call; and a person is asked only
/// where its permission says so.
pub proof fn tools_run_only_when_allowed(
    run: RunView,
    permissions: PermissionConfig,
    effects: Seq<EffectView>,
    mode: PermissionMode,
)
    requires
        run.limits(),
    ensures
        ({
            let out = run.go_on(permissions, effects);
            &&& out.action matches ActionView::Execute { tool, arguments } ==> tool
                == out.run.call().name && arguments == json_text(out.run.call().arguments) && (
            out.run.mode(permissions) == PermissionMode::Allow || out.run.mode(permissions)
                == PermissionMode::Auto)
            &&& out.action is RequestApproval ==> !out.run.yolo && permissions.mode(
                out.run.agent,
                out.run.call().name,
            ) == PermissionMode::Ask
        }),
        run.next < run.pending.len() && run.on_decided(mode, permissions).action is Execute
            && run.on_decided(mode, permissions).run.next == run.next ==> mode
            == PermissionMode::Allow,
    decreases run.pending.len() - run.next,
{
    if run.next < run.pending.len() {
        let result = "Tool execution denied by policy"@;
        if run.mode(permissions) == PermissionMode::Deny {
            lemma_recorded(run, result);
            tools_run_only_when_allowed(
                run.recorded(result),
                permissions,
                effects.push(run.call_event()) + run.record_effects(result),
                mode,
            );
        }
        let denied = "Tool execution denied by human approval"@;
        lemma_recorded(run, denied);
        lemma_never_back(run.recorded(denied), permissions, run.record_effects(denied));
    }
}

/// Going through the calls that are left never goes back to an earlier call.
proof fn lemma_never_back(run: RunView, permissions: PermissionConfig, effects: Seq<EffectView>)
    requires
        run.limits(),
    ensures
        run.go_on(permissions, effects).run.next >= run.next,
    decreases run.pending.len() - run.next,
{
    if run.next < run.pending.len() && run.mode(permissions) == PermissionMode::Deny {
        let result = "Tool execution denied by policy"@;
        lemma_recorded(run, result);
        lemma_never_back(
            run.recorded(result),
            permissions,
            effects.push(run.call_event()) + run.record_effects(result),
        );
    }
}

/// How much is left of a run: rounds, then stages of the round, then stages of
/// its calls.
pub open spec fn left(run: RunView) -> (int, int, int) {
    let rounds = run.max_rounds - run.round + 1;
    let calls = 3 * (run.pending.len() - run.next);
    match run.phase {
        Phase::Check => (rounds, 2, 0),
        Phase::Complete => (rounds, 1, 0),
        Phase::Request => (rounds, 0, calls + 2),
        Phase::Await => (rounds, 0, calls + 1),
        Phase::Execute => (rounds, 0, calls),
        Phase::Last => (rounds, 0, 0),
        Phase::Done => (0, 0, 0),
    }
}

/// Whether less is left of one run than of another: the first part that differs
/// is smaller, and no part is below zero.
pub open spec fn less_left(a: (int, int, int), b: (int, int, int)) -> bool {
    &&& a.0 >= 0 && a.1 >= 0 && a.2 >= 0
    &&& a.0 < b.0 || (a.0 == b.0 && (a.1 < b.1 || (a.1 == b.1 && a.2 < b.2)))
}

/// Going through the calls that are left brings a run closer to its end than the
/// stage before the first of them.
proof fn lemma_go_on_progress(
    run: RunView,
    permissions: PermissionConfig,
    effects: Seq<EffectView>,
)
    requires
        run.limits(),
        run.round < run.max_rounds,
    ensures
        less_left(
            left(run.go_on(permissions, effects).run),
            (run.max_rounds - run.round + 1, 0, 3 * (run.pending.len() - run.next) + 3),
        ),
    decreases run.pending.len() - run.next,
{
    if run.next < run.pending.len() && run.mode(permissions) == PermissionMode::Deny {
        let result = "Tool execution denied by policy"@;
        lemma_recorded(run, result);
        lemma_go_on_progress(
            run.recorded(result),
            permissions,
            effects.push(run.call_event()) + run.record_effects(result),
        );
    }
}

/// Every step brings a run closer to its end, whatever happens: no run goes on
/// for ever.
pub proof fn every_step_makes_progress(
    run: RunView,
    permissions: PermissionConfig,
    cancelled: bool,
    text: Seq<char>,
    calls: Seq<CallView>,
    mode: PermissionMode,
    last: Option<Seq<char>>,
)
    requires
        run.wf(),
    ensures
        run.phase == Phase::Check ==> less_left(left(run.on_checked(cancelled).run), left(run)),
        run.phase == Phase::Complete ==> less_left(left(run.on_failed(text).run), left(run)),
        run.phase == Phase::Complete ==> less_left(left(run.on_text(text).run), left(run)),
        run.phase == Phase::Complete ==> less_left(
            left(run.on_calls(calls, permissions).run),
            left(run),
        ),
        run.phase == Phase::Execute ==> less_left(
            left(run.on_result(text, permissions).run),
            left(run),
        ),
        run.phase == Phase::Request ==> less_left(left(run.on_requested(text).run), left(run)),
        run.phase == Phase::Await ==> less_left(
            left(run.on_decided(mode, permissions).run),
            left(run),
        ),
        run.phase == Phase::Last ==> less_left(left(run.on_last(last).run), left(run)),
{
    if run.phase == Phase::Complete {
        let begun = RunView { pending: calls, next: 0, ..run };
        lemma_go_on_progress(begun, permissions, seq![EffectView::StoreCalls]);
    }
    if run.phase == Phase::Execute || run.phase == Phase::Await {
        lemma_recorded(run, text);
        lemma_go_on_progress(run.recorded(text), permissions, run.record_effects(text));
        let denied = "Tool execution denied by human approval"@;
        lemma_recorded(run, denied);
        lemma_go_on_progress(run.recorded(denied), permissions, run.record_effects(denied));
    }
}

/// The model is asked at most once in a round, and in no more rounds than the
/// run has: of two states in which it is asked, the one of which less is left is
/// in a later round.
pub proof fn one_completion_in_a_round(earlier: RunView, later: RunView)
    requires
        earlier.wf(),
        later.wf(),
        earlier.phase == Phase::Complete,
        later.phase == Phase::Complete,
        earlier.max_rounds == later.max_rounds,
        less_left(left(later), left(earlier)),
    ensures
        earlier.round < later.round < later.max_rounds,
{
}

/// Going through the calls that are left adds to what was sent, stored and logged
/// before, and takes nothing away.
proof fn lemma_go_on_keeps(run: RunView, permissions: PermissionConfig, effects: Seq<EffectView>)
    requires
        run.limits(),
    ensures
        effects.is_prefix_of(run.go_on(permissions, effects).effects),
        run.log.is_prefix_of(run.go_on(permissions, effects).run.log),
    decreases run.pending.len() - run.next,
{
    if run.next < run.pending.len() && run.mode(permissions) == PermissionMode::Deny {
        let result = "Tool execution denied by policy"@;
        let told = effects.push(run.call_event()) + run.record_effects(result);
        lemma_recorded(run, result);
        lemma_go_on_keeps(run.recorded(result), permissions, told);
        let out = run.recorded(result).go_on(permissions, told);
        assert(effects =~= out.effects.take(effects.len() as int)) by {
            assert(told =~= out.effects.take(told.len() as int));
            assert(effects =~= told.take(effects.len() as int));
        }
        let log = run.recorded(result).log;
        assert(run.log =~= out.run.log.take(run.log.len() as int)) by {
            assert(log =~= out.run.log.take(log.len() as int));
            assert(run.log =~= log.take(run.log.len() as int));
        }
    }
}

/// The result of a tool is kept whole, however long it is: what is stored is the id of
/// the call, a vertical bar and the very result, which splits back into both where the
/// id has no bar in it; and the same result is logged for the answer, with the name and
/// the arguments of the call. Only the event for those who listen shows a part of it,
/// the first two thousand characters.
pub proof fn results_are_kept_whole(
    run: RunView,
    result: Seq<char>,
    permissions: PermissionConfig,
)
    requires
        run.limits(),
        run.next < run.pending.len(),
    ensures
        ({
            let call = run.pending[run.next];
            let out = run.on_result(result, permissions);
            &&& out.effects.len() >= 2
            &&& out.effects[1] matches EffectView::StoreResult { call_id, content } && call_id
                == call.id && content == call.id + "|"@ + result && (!call.id.contains('|')
                ==> split_at_bar(content) == Some((call.id, result)))
            &&& out.run.log.len() > run.log.len()
            &&& run.log == out.run.log.take(run.log.len() as int)
            &&& out.run.log[run.log.len() as int].name == call.name
            &&& out.run.log[run.log.len() as int].arguments == json_text(call.arguments)
            &&& out.run.log[run.log.len() as int].result == Some(result)
            &&& out.effects[0] matches EffectView::Broadcast(event) && event.at("type"@)
                == Json::Str("tool_result"@) && event.at("name"@) == Json::Str(call.name)
                && event.at("session_id"@) == Json::Str(run.session) && (run.run_id matches Some(id)
                ==> event.at("run_id"@) == Json::Str(id)) && (event.at(
                "result"@,
            ) matches Json::Str(shown) && shown.is_prefix_of(result) && (result.len() <= 2000
                ==> shown == result) && (result.len() > 2000 ==> shown.len() == 2000))
        }),
{
    let call = run.call();
    lemma_recorded(run, result);
    let effects = run.record_effects(result);
    let after = run.recorded(result);
    lemma_go_on_keeps(after, permissions, effects);
    let out = run.on_result(result, permissions);
    assert(out.effects.take(2)[0] == effects[0]);
    assert(out.effects.take(2)[1] == effects[1]);
    assert(after.log =~= out.run.log.take(after.log.len() as int));
    assert(out.run.log.take(after.log.len() as int)[run.log.len() as int]
        == after.log[run.log.len() as int]);
    assert(run.log =~= out.run.log.take(run.log.len() as int)) by {
        assert(after.log.take(run.log.len() as int) =~= run.log);
    }
    if !call.id.contains('|') {
        result_record_splits_back(call.id, result);
    }
    broadcast use lemma_lookup_push;
    lemma_event_names();
}

/// The names of the fields of events differ.
proof fn lemma_event_names()
    ensures
        "type"@ != "name"@,
        "type"@ != "result"@,
        "type"@ != "args"@,
        "type"@ != "run_id"@,
        "type"@ != "session_id"@,
        "type"@ != "approval_id"@,
        "type"@ != "tool"@,
        "type"@ != "arguments"@,
        "type"@ != "agent"@,
        "name"@ != "result"@,
        "name"@ != "args"@,
        "name"@ != "run_id"@,
        "name"@ != "session_id"@,
        "result"@ != "run_id"@,
        "result"@ != "session_id"@,
        "args"@ != "run_id"@,
        "args"@ != "session_id"@,
        "run_id"@ != "session_id"@,
        "approval_id"@ != "tool"@,
        "approval_id"@ != "arguments"@,
        "approval_id"@ != "agent"@,
        "approval_id"@ != "session_id"@,
        "tool"@ != "arguments"@,
        "tool"@ != "agent"@,
        "tool"@ != "session_id"@,
        "arguments"@ != "agent"@,
        "arguments"@ != "session_id"@,
        "agent"@ != "session_id"@,
{
    reveal_strlit("type");
    reveal_strlit("name");
    reveal_strlit("result");
    reveal_strlit("args");
    reveal_strlit("run_id");
    reveal_strlit("session_id");
    reveal_strlit("approval_id");
    reveal_strlit("tool");
    reveal_strlit("arguments");
    reveal_strlit("agent");
    assert("result"@.len() == 6 && "run_id"@.len() == 6 && "session_id"@.len() == 10);
    assert("approval_id"@.len() == 11 && "arguments"@.len() == 9 && "agent"@.len() == 5);
    assert("type"@[0] == 't' && "name"@[0] == 'n' && "args"@[0] == 'a' && "tool"@[0] == 't');
    assert("type"@[1] == 'y' && "tool"@[1] == 'o');
    assert("result"@[1] == 'e' && "run_id"@[1] == 'u');
}

/// The answer of a model is given as it is: a text that is neither blank nor a canned
/// greeting is stored and ends the run, with that text as the answer, the calls that
/// were made, and the session and model of the run. A blank or canned one is asked for
/// again in the next round, twice at most, and is not stored then; after that it is
/// taken as it is.
pub proof fn answers_are_given_as_they_are(run: RunView, text: Seq<char>)
    requires
        run.wf(),
        run.phase == Phase::Complete,
    ensures
        ({
            let out = run.on_text(text);
            let bad = trimmed(text).len() == 0 || canned(trimmed(text));
            &&& !bad || run.response_retries >= 2 ==> {
                &&& out.run.phase == Phase::Done
                &&& out.effects.len() == 1 && out.effects[0] == EffectView::StoreText(text)
                &&& out.action matches ActionView::Return { response, compact } && compact
                    && response.content == text && response.tool_calls == run.log
                    && response.session_id == run.session && response.model_used == Some(run.model)
            }
            &&& bad && run.response_retries < 2 ==> {
                &&& out.run.round == run.round + 1
                &&& out.run.response_retries == run.response_retries + 1
                &&& out.action == (if run.round + 1 < run.max_rounds {
                    ActionView::CheckCancelled
                } else {
                    ActionView::FetchLast
                })
                &&& forall|i: int|
                    0 <= i < out.effects.len() ==> (#[trigger] out.effects[i]) is Broadcast
            }
        }),
{
}

/// A failure of the model ends the run with a message that holds the error, unless it
/// speaks of reasoning content and was tried again less than twice: then the next round
/// begins. Nothing of it is stored.
pub proof fn failures_are_told(run: RunView, error: Seq<char>)
    requires
        run.wf(),
        run.phase == Phase::Complete,
    ensures
        ({
            let out = run.on_failed(error);
            let again = has(error, "reasoning_content"@) && run.error_retries < 2;
            &&& !again ==> out.run.phase == Phase::Done && (out.action matches ActionView::Return {
                response,
                compact,
            } && compact && response.content
                == "I encountered an error processing your request: "@ + error
                && response.tool_calls == run.log && response.session_id == run.session)
            &&& again ==> out.run.round == run.round + 1 && out.run.error_retries
                == run.error_retries + 1 && out.action == (if run.round + 1 < run.max_rounds {
                ActionView::CheckCancelled
            } else {
                ActionView::FetchLast
            })
            &&& forall|i: int|
                0 <= i < out.effects.len() ==> (#[trigger] out.effects[i]) is Broadcast
        }),
{
}

/// A run that its user has cancelled asks the model nothing more and returns at once;
/// one that was not cancelled asks the model.
pub proof fn cancelling_stops_a_run(run: RunView)
    ensures
        run.on_checked(true).run.phase == Phase::Done,
        run.on_checked(true).action matches ActionView::Return { response, compact }
            && response.content == "Run cancelled by user."@ && response.tool_calls == run.log
            && response.session_id == run.session && !compact,
        run.on_checked(false).action == ActionView::Complete,
        run.on_checked(false).run.phase == Phase::Complete,
        run.on_checked(false).effects.len() == 0,
{
}

/// A run whose rounds are used up answers with the last message of the session.
pub proof fn last_message_answers(run: RunView, last: Option<Seq<char>>)
    ensures
        run.on_last(last).run.phase == Phase::Done,
        run.on_last(last).action matches ActionView::Return { response, compact } && compact
            && response.tool_calls == run.log && response.session_id == run.session && (match last {
            Some(content) => response.content == content,
            None => response.content == "No response generated."@,
        }),
        run.on_last(last).effects.len() == 0,
{
}

/// The calls of a round are taken one after the other, none left out: the round starts
/// with the calls being stored; those before the one at hand were denied by policy and
/// logged as such, in order; the one at hand is the first that is not denied, and it is
/// run where its permission allows that and asked about where its permission says so;
/// and the next round begins only when no call is left.
pub proof fn calls_are_taken_in_order(
    run: RunView,
    calls: Seq<CallView>,
    permissions: PermissionConfig,
)
    requires
        run.wf(),
        run.phase == Phase::Complete,
    ensures
        ({
            let out = run.on_calls(calls, permissions);
            let n = out.run.next;
            &&& out.effects.len() > 0 && out.effects[0] == EffectView::StoreCalls
            &&& out.run.pending == calls
            &&& 0 <= n <= calls.len()
            &&& out.run.log.len() == run.log.len() + n
            &&& run.log == out.run.log.take(run.log.len() as int)
            &&& forall|i: int|
                0 <= i < n ==> {
                    let info = #[trigger] out.run.log[run.log.len() + i];
                    &&& !run.yolo && permissions.mode(run.agent, calls[i].name)
                        == PermissionMode::Deny
                    &&& info.name == calls[i].name
                    &&& info.arguments == json_text(calls[i].arguments)
                    &&& info.result == Some("Tool execution denied by policy"@)
                }
            &&& n < calls.len() ==> {
                let mode = permissions.mode(run.agent, calls[n].name);
                &&& run.yolo || mode == PermissionMode::Allow || mode == PermissionMode::Auto
                    ==> out.action == ActionView::Execute {
                    tool: calls[n].name,
                    arguments: json_text(calls[n].arguments),
                }
                &&& !run.yolo && mode == PermissionMode::Ask ==> out.action
                    == ActionView::RequestApproval {
                    tool: calls[n].name,
                    arguments: json_text(calls[n].arguments),
                }
                &&& run.yolo || mode != PermissionMode::Deny
            }
            &&& n == calls.len() ==> out.run.round == run.round + 1 && (out.action
                == ActionView::CheckCancelled || out.action == ActionView::FetchLast)
        }),
{
    let begun = RunView { pending: calls, next: 0, ..run };
    lemma_go_on_keeps(begun, permissions, seq![EffectView::StoreCalls]);
    lemma_taken(begun, permissions, seq![EffectView::StoreCalls]);
    let out = run.on_calls(calls, permissions);
    assert(out.effects.take(1)[0] == EffectView::StoreCalls);
}

/// After a result the calls that are left are taken as at the start of the round: the
/// ones that are denied are logged as such, and the first of the others is run or asked
/// about. After the last call the next round begins.
pub proof fn calls_that_are_left_are_taken(
    run: RunView,
    result: Seq<char>,
    permissions: PermissionConfig,
)
    requires
        run.wf(),
        run.phase == Phase::Execute,
    ensures
        ({
            let out = run.on_result(result, permissions);
            let n = out.run.next;
            &&& out.run.pending == run.pending
            &&& run.next < n <= run.pending.len()
            &&& out.run.log.len() == run.log.len() + (n - run.next)
            &&& forall|i: int|
                run.next < i < n ==> !run.yolo && permissions.mode(
                    run.agent,
                    (#[trigger] run.pending[i]).name,
                ) == PermissionMode::Deny
            &&& n < run.pending.len() ==> {
                let mode = permissions.mode(run.agent, run.pending[n].name);
                &&& run.yolo || mode == PermissionMode::Allow || mode == PermissionMode::Auto
                    ==> out.action == ActionView::Execute {
                    tool: run.pending[n].name,
                    arguments: json_text(run.pending[n].arguments),
                }
                &&& !run.yolo && mode == PermissionMode::Ask ==> out.action
                    == ActionView::RequestApproval {
                    tool: run.pending[n].name,
                    arguments: json_text(run.pending[n].arguments),
                }
                &&& run.yolo || mode != PermissionMode::Deny
            }
            &&& n == run.pending.len() ==> out.run.round == run.round + 1 && out.action == (
            if run.round + 1 < run.max_rounds {
                ActionView::CheckCancelled
            } else {
                ActionView::FetchLast
            })
        }),
{
    lemma_recorded(run, result);
    lemma_taken(run.recorded(result), permissions, run.record_effects(result));
}

/// Which calls are passed over on the way through those that are left.
proof fn lemma_taken(run: RunView, permissions: PermissionConfig, effects: Seq<EffectView>)
    requires
        run.limits(),
        run.round < run.max_rounds,
    ensures
        ({
            let out = run.go_on(permissions, effects);
            let n = out.run.next;
            &&& out.run.pending == run.pending
            &&& run.next <= n <= run.pending.len()
            &&& out.run.log.len() == run.log.len() + (n - run.next)
            &&& run.log == out.run.log.take(run.log.len() as int)
            &&& forall|i: int|
                run.next <= i < n ==> !run.yolo && permissions.mode(
                    run.agent,
                    (#[trigger] run.pending[i]).name,
                ) == PermissionMode::Deny
            &&& forall|i: int|
                0 <= i < n - run.next ==> (#[trigger] out.run.log[run.log.len() + i]) == info_of(
                    run.pending[run.next + i],
                    "Tool execution denied by policy"@,
                )
            &&& n < run.pending.len() ==> {
                let mode = permissions.mode(run.agent, run.pending[n].name);
                &&& run.yolo || mode == PermissionMode::Allow || mode == PermissionMode::Auto
                    ==> out.action == ActionView::Execute {
                    tool: run.pending[n].name,
                    arguments: json_text(run.pending[n].arguments),
                }
                &&& !run.yolo && mode == PermissionMode::Ask ==> out.action
                    == ActionView::RequestApproval {
                    tool: run.pending[n].name,
                    arguments: json_text(run.pending[n].arguments),
                }
                &&& run.yolo || mode != PermissionMode::Deny
            }
            &&& n == run.pending.len() ==> out.run.round == run.round + 1 && out.action == (
            if run.round + 1 < run.max_rounds {
                ActionView::CheckCancelled
            } else {
                ActionView::FetchLast
            })
        }),
    decreases run.pending.len() - run.next,
{
    let out = run.go_on(permissions, effects);
    if run.next < run.pending.len() && run.mode(permissions) == PermissionMode::Deny {
        let result = "Tool execution denied by policy"@;
        let after = run.recorded(result);
        lemma_recorded(run, result);
        lemma_taken(
            after,
            permissions,
            effects.push(run.call_event()) + run.record_effects(result),
        );
        assert(run.log =~= out.run.log.take(run.log.len() as int)) by {
            assert(after.log.take(run.log.len() as int) =~= run.log);
            assert(after.log =~= out.run.log.take(after.log.len() as int));
        }
        assert forall|i: int| 0 <= i < out.run.next - run.next implies (
        #[trigger] out.run.log[run.log.len() + i]) == info_of(
            run.pending[run.next + i],
            result,
        ) by {
            if i == 0 {
                assert(out.run.log.take(after.log.len() as int)[run.log.len() as int]
                    == after.log[run.log.len() as int]);
            } else {
                assert(out.run.log[after.log.len() + (i - 1)] == info_of(
                    after.pending[after.next + (i - 1)],
                    result,
                ));
            }
        }
    } else {
        assert(run.log.take(run.log.len() as int) =~= run.log);
    }
}

/// Only a person who allows the call has it run, with the name and the arguments of the
/// call at hand; any other decision is recorded as the result of the call.
pub proof fn decisions_are_followed(
    run: RunView,
    mode: PermissionMode,
    permissions: PermissionConfig,
)
    requires
        run.wf(),
        run.phase == Phase::Await,
    ensures
        mode == PermissionMode::Allow ==> run.on_decided(mode, permissions).action
            == (ActionView::Execute {
            tool: run.pending[run.next].name,
            arguments: json_text(run.pending[run.next].arguments),
        }) && run.on_decided(mode, permissions).run.next == run.next,
        mode != PermissionMode::Allow ==> ({
            let out = run.on_decided(mode, permissions);
            &&& out.run.next > run.next
            &&& out.run.log.len() > run.log.len()
            &&& out.run.log[run.log.len() as int].name == run.pending[run.next].name
            &&& out.run.log[run.log.len() as int].result == Some(
                "Tool execution denied by human approval"@,
            )
            &&& out.effects.len() >= 2 && (out.effects[1] matches EffectView::StoreResult {
                call_id,
                content,
            } && call_id == run.pending[run.next].id && content == run.pending[run.next].id + "|"@
                + "Tool execution denied by human approval"@)
        }),
{
    if mode != PermissionMode::Allow {
        let denied = "Tool execution denied by human approval"@;
        results_are_kept_whole(run, denied, permissions);
        lemma_recorded(run, denied);
        lemma_never_back(run.recorded(denied), permissions, run.record_effects(denied));
    }
}

/// An approval is requested of those who listen with all that they need: its id, the
/// tool, its arguments, the agent and the session; and it is that approval which is
/// waited for.
pub proof fn approvals_are_announced(run: RunView, id: Seq<char>)
    ensures
        ({
            let out = run.on_requested(id);
            &&& out.action == ActionView::AwaitApproval { id }
            &&& out.run.phase == Phase::Await
            &&& out.run.next == run.next && out.run.log == run.log
            &&& out.effects.len() == 1
            &&& out.effects[0] matches EffectView::Broadcast(event) && event.at("type"@)
                == Json::Str("approval_needed"@) && event.at("approval_id"@) == Json::Str(id)
                && event.at("tool"@) == Json::Str(run.pending[run.next].name) && event.at(
                "arguments"@,
            ) == run.pending[run.next].arguments && event.at("agent"@) == Json::Str(run.agent)
                && event.at("session_id"@) == Json::Str(run.session)
        }),
{
    broadcast use lemma_lookup_push;
    lemma_event_names();
}

/// Those who listen are told of every call before it is run or asked about: its name and
/// its arguments, in the run and session.
pub proof fn calls_are_announced(run: RunView)
    ensures
        run.call_event() matches EffectView::Broadcast(event) && event.at("type"@) == Json::Str(
            "tool_call"@,
        ) && event.at("name"@) == Json::Str(run.pending[run.next].name) && event.at("args"@)
            == Json::Str(json_text(run.pending[run.next].arguments)) && event.at("session_id"@)
            == Json::Str(run.session) && (run.run_id matches Some(id) ==> event.at("run_id"@)
            == Json::Str(id)),
        run.cancel_event() matches EffectView::Broadcast(event) && event.at("type"@) == Json::Str(
            "run_cancelled"@,
        ) && event.at("session_id"@) == Json::Str(run.session) && (run.run_id matches Some(id)
            ==> event.at("run_id"@) == Json::Str(id)),
        match run.run_id {
            Some(id) => run.reset_events().len() == 1 && (
            run.reset_events()[0] matches EffectView::Broadcast(event) && event.at("type"@)
                == Json::Str("session.token_reset"@) && event.at("run_id"@) == Json::Str(id)
                && event.at("session_id"@) == Json::Str(run.session)),
            None => run.reset_events().len() == 0,
        },
{
    broadcast use lemma_lookup_push;
    lemma_event_names();
}

/// A run begins without calls and retries, and with all its rounds; it is waved through
/// only where its agent is.
pub proof fn runs_begin_afresh(
    agent: Seq<char>,
    session: Seq<char>,
    run_id: Option<Seq<char>>,
    model: Seq<char>,
    yolo: bool,
    max_rounds: u32,
)
    ensures
        ({
            let out = fresh(agent, session, run_id, model, yolo, max_rounds).begin_round(seq![]);
            &&& out.run.wf()
            &&& out.run.agent == agent && out.run.session == session && out.run.run_id == run_id
            &&& out.run.model == model && out.run.yolo == yolo && out.run.max_rounds == max_rounds
            &&& out.run.round == 0 && out.run.response_retries == 0 && out.run.error_retries == 0
            &&& out.run.log.len() == 0 && out.run.pending.len() == 0
            &&& out.action == (if max_rounds > 0 {
                ActionView::CheckCancelled
            } else {
                ActionView::FetchLast
            })
        }),
{
}

/// A step leaves the run in the state that the outcome says, has just the effects that it
/// says, in order, and asks for just the action that it says.
pub proof fn steps_follow_the_outcome(run: RunView, step: Step, outcome: Outcome, i: int)
    requires
        is_outcome(run, step, outcome),
    ensures
        run == outcome.run,
        step.effects@.len() == outcome.effects.len(),
        0 <= i < step.effects@.len() ==> step.effects@[i]@ == outcome.effects[i],
        step.action@ == outcome.action,
{
    assert(effect_views(step.effects@).len() == step.effects@.len());
    if 0 <= i < step.effects@.len() {
        assert(effect_views(step.effects@)[i] == step.effects@[i]@);
    }
}

/// A run tries again at most twice for an answer and at most twice after a failure, and
/// it has no more rounds than it may; and every call of the round that is done stands in
/// its log, with its name, its arguments and a result.
pub proof fn retries_are_limited(run: RunView, i: int)
    requires
        run.limits(),
    ensures
        run.response_retries < 3,
        run.error_retries < 3,
        run.round <= run.max_rounds,
        0 <= run.next <= run.pending.len(),
        0 <= i < run.next ==> ({
            let info = run.log[run.log.len() - run.next + i];
            info.name == run.pending[i].name && info.arguments == json_text(
                run.pending[i].arguments,
            ) && info.result is Some
        }),
{
}

} // verus!
