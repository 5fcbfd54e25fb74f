//! The gateway: how it is set up, and how messages reach agents and answers go
//! back.
use vstd::prelude::*;

use crate::agent::{
    place_of, AgentConfig, AgentRequest, AgentResponse, Attachment, ConfigView, RequestView,
};
use crate::channels::email::EmailChannel;
use crate::channels::telegram::{
    inbound_of, is_allowed, is_private, members_of_a_group_are_one_peer,
    messages_belong_to_their_chat, TelegramChannel,
};
use crate::channels::{InboundMessage, InboundView, OutboundMessage, OutboundView};
use crate::config::{first_profile, Config, EmailConfig, TelegramConfig};
use crate::llm::{base_url_of, key_of, LlmError, LlmProvider};
use crate::text::{cat, cat3, cat5, opt, owned, owned_opt};
use crate::value::{lemma_lookup_push, no_fields, Fields, Json};

verus! {

/// The values of the environment variables that a configuration names, where they
/// are set.
#[derive(Debug)]
pub struct EnvValues {
    pub api_key: Option<String>,
    pub telegram_token: Option<String>,
    pub email_username: Option<String>,
    pub email_password: Option<String>,
}

/// Why a gateway could not be set up.
#[derive(Debug)]
pub enum SetupError {
    NoProfile,
    Llm(LlmError),
    NoTelegramToken,
    NoEmailUsername,
    NoEmailPassword,
}

impl SetupError {
    /// What the error says.
    pub open spec fn says(self) -> Seq<char> {
        match self {
            SetupError::NoProfile => "No model profile configured"@,
            SetupError::Llm(e) => e.says(),
            SetupError::NoTelegramToken => "Telegram bot token not configured"@,
            SetupError::NoEmailUsername => "Email username not configured"@,
            SetupError::NoEmailPassword => "Email password not configured"@,
        }
    }

    /// What the error says.
    pub fn message(&self) -> (r: String)
        ensures
            r@ == self.says(),
    {
        match self {
            SetupError::NoProfile => owned("No model profile configured"),
            SetupError::Llm(e) => e.message(),
            SetupError::NoTelegramToken => owned("Telegram bot token not configured"),
            SetupError::NoEmailUsername => owned("Email username not configured"),
            SetupError::NoEmailPassword => owned("Email password not configured"),
        }
    }
}

/// A setting: the one that is given, else the value of the variable that is named
/// for it.
pub open spec fn setting(
    given: Option<Seq<char>>,
    named: Option<Seq<char>>,
    env: Option<Seq<char>>,
) -> Option<Seq<char>> {
    if given is Some {
        given
    } else if named is Some {
        env
    } else {
        None
    }
}

/// A setting.
fn choose_setting(given: &Option<String>, named: &Option<String>, env: &Option<String>) -> (r:
    Option<String>)
    ensures
        opt(r) == setting(opt(*given), opt(*named), opt(*env)),
{
    match given {
        Some(s) => Some(s.clone()),
        None => match named {
            Some(_) => owned_opt(env),
            None => None,
        },
    }
}

/// Whether a channel is that of a configuration with a token.
pub open spec fn is_telegram(t: TelegramChannel, config: TelegramConfig, token: Seq<char>) -> bool {
    t.bot_token@ == token && t.bot_name@ == "clawrig"@ && t.dm_policy@ == config.dm_policy@
        && t.allowed_users@.len() == 0
}

/// The Telegram channel of a configuration, where it is enabled.
pub fn telegram_channel(config: &Option<TelegramConfig>, env: &Option<String>) -> (r: Result<
    Option<TelegramChannel>,
    SetupError,
>)
    ensures
        match config {
            Some(c) => if c.enabled {
                match setting(opt(c.bot_token), opt(c.bot_token_env), opt(*env)) {
                    Some(token) => r matches Ok(Some(t)) && is_telegram(t, *c, token),
                    None => r matches Err(SetupError::NoTelegramToken),
                }
            } else {
                r matches Ok(None)
            },
            None => r matches Ok(None),
        },
{
    match config {
        Some(c) => if c.enabled {
            match choose_setting(&c.bot_token, &c.bot_token_env, env) {
                Some(token) => Ok(
                    Some(
                        TelegramChannel::new(
                            token,
                            owned("clawrig"),
                            c.dm_policy.clone(),
                            Vec::new(),
                        ),
                    ),
                ),
                None => Err(SetupError::NoTelegramToken),
            }
        } else {
            Ok(None)
        },
        None => Ok(None),
    }
}

/// A port, or the usual one.
pub open spec fn port_or(port: Option<u16>, usual: u16) -> u16 {
    match port {
        Some(p) => p,
        None => usual,
    }
}

/// Whether a channel is that of a configuration with a name and a password.
pub open spec fn is_email(
    e: EmailChannel,
    config: EmailConfig,
    username: Seq<char>,
    password: Seq<char>,
) -> bool {
    &&& e.imap() == (config.imap_host@, port_or(config.imap_port, 993))
    &&& e.smtp() == (config.smtp_host@, port_or(config.smtp_port, 587))
    &&& e.login() == (username, password)
}

/// The name for a mail account.
pub open spec fn email_username(c: EmailConfig, env: Option<Seq<char>>) -> Option<Seq<char>> {
    setting(opt(c.username), opt(c.username_env), env)
}

/// The password for a mail account.
pub open spec fn email_password(c: EmailConfig, env: Option<Seq<char>>) -> Option<Seq<char>> {
    setting(opt(c.password), opt(c.password_env), env)
}

/// The mail channel of a configuration, where it is enabled.
pub fn email_channel(
    config: &Option<EmailConfig>,
    username_env: &Option<String>,
    password_env: &Option<String>,
) -> (r: Result<Option<EmailChannel>, SetupError>)
    ensures
        match config {
            Some(c) => if c.enabled {
                match email_username(*c, opt(*username_env)) {
                    None => r matches Err(SetupError::NoEmailUsername),
                    Some(username) => match email_password(*c, opt(*password_env)) {
                        None => r matches Err(SetupError::NoEmailPassword),
                        Some(password) => r matches Ok(Some(e)) && is_email(
                            e,
                            *c,
                            username,
                            password,
                        ),
                    },
                }
            } else {
                r matches Ok(None)
            },
            None => r matches Ok(None),
        },
{
    match config {
        Some(c) => if c.enabled {
            let username = match choose_setting(&c.username, &c.username_env, username_env) {
                Some(s) => s,
                None => {
                    return Err(SetupError::NoEmailUsername);
                },
            };
            let password = match choose_setting(&c.password, &c.password_env, password_env) {
                Some(s) => s,
                None => {
                    return Err(SetupError::NoEmailPassword);
                },
            };
            let imap_port: u16 = match c.imap_port {
                Some(p) => p,
                None => 993,
            };
            let smtp_port: u16 = match c.smtp_port {
                Some(p) => p,
                None => 587,
            };
            Ok(
                Some(
                    EmailChannel::new(
                        c.imap_host.clone(),
                        imap_port,
                        c.smtp_host.clone(),
                        smtp_port,
                        username,
                        password,
                    ),
                ),
            )
        } else {
            Ok(None)
        },
        None => Ok(None),
    }
}

/// The agent that the gateway runs.
pub open spec fn gateway_agent(yolo: bool) -> ConfigView {
    ConfigView {
        name: "main"@,
        system_prompt: "You are ClawRig, a helpful AI assistant."@,
        max_tool_rounds: 10,
        model_override: None,
        yolo_mode: yolo,
    }
}

/// A gateway that is set up.
pub struct GatewaySetup {
    pub provider: LlmProvider,
    pub telegram: Option<TelegramChannel>,
    pub email: Option<EmailChannel>,
    pub agent: AgentConfig,
}

/// Whether the client of the first configured model can be made.
pub open spec fn client_ready(config: Config, env: EnvValues) -> bool {
    first_profile(config.models) matches Some(p) && p@.provider == "openai"@ && key_of(
        p@,
        opt(env.api_key),
    ) is Some
}

/// Whether the Telegram channel can be made, or is not wanted.
pub open spec fn telegram_ready(config: Config, env: EnvValues) -> bool {
    config.channels.telegram matches Some(c) ==> c.enabled ==> setting(
        opt(c.bot_token),
        opt(c.bot_token_env),
        opt(env.telegram_token),
    ) is Some
}

/// Whether the name for the mail account is there, or no mail is wanted.
pub open spec fn username_ready(config: Config, env: EnvValues) -> bool {
    config.channels.email matches Some(c) ==> c.enabled ==> email_username(
        c,
        opt(env.email_username),
    ) is Some
}

/// Whether the password for the mail account is there, or no mail is wanted.
pub open spec fn password_ready(config: Config, env: EnvValues) -> bool {
    config.channels.email matches Some(c) ==> c.enabled ==> email_password(
        c,
        opt(env.email_password),
    ) is Some
}

/// Sets up a gateway: the client of the first configured model, the channels that
/// are enabled, and the agent. What is missing first is told.
pub fn set_up(config: &Config, env: &EnvValues) -> (r: Result<GatewaySetup, SetupError>)
    ensures
        r is Ok == (client_ready(*config, *env) && telegram_ready(*config, *env) && username_ready(
            *config,
            *env,
        ) && password_ready(*config, *env)),
        r matches Ok(s) ==> {
            &&& s.agent@ == gateway_agent(config.agents.defaults.yolo)
            &&& s.telegram is Some == (config.channels.telegram matches Some(c) && c.enabled)
            &&& s.email is Some == (config.channels.email matches Some(c) && c.enabled)
            &&& s.telegram matches Some(t) ==> is_telegram(
                t,
                config.channels.telegram->0,
                setting(
                    opt(config.channels.telegram->0.bot_token),
                    opt(config.channels.telegram->0.bot_token_env),
                    opt(env.telegram_token),
                )->0,
            )
            &&& s.email matches Some(e) ==> is_email(
                e,
                config.channels.email->0,
                email_username(config.channels.email->0, opt(env.email_username))->0,
                email_password(config.channels.email->0, opt(env.email_password))->0,
            )
            &&& s.provider matches LlmProvider::OpenAi(client) && client.api_key@ == key_of(
                first_profile(config.models)->0@,
                opt(env.api_key),
            )->0 && client.base_url@ == base_url_of(first_profile(config.models)->0@)
        },
        r matches Err(e) ==> {
            &&& first_profile(config.models) is None <==> e is NoProfile
            &&& e is Llm <==> first_profile(config.models) is Some && !client_ready(*config, *env)
            &&& e matches SetupError::Llm(inner) ==> {
                let p = first_profile(config.models)->0@;
                match inner {
                    LlmError::Unsupported(name) => p.provider != "openai"@ && name@ == p.provider,
                    LlmError::EnvNotSet(name) => p.provider == "openai"@ && p.api_key is None
                        && p.api_key_env == Some(name@),
                    LlmError::NoKey => p.provider == "openai"@ && p.api_key is None
                        && p.api_key_env is None,
                    LlmError::Empty => false,
                }
            }
            &&& e is NoTelegramToken <==> client_ready(*config, *env) && !telegram_ready(
                *config,
                *env,
            )
            &&& e is NoEmailUsername <==> client_ready(*config, *env) && telegram_ready(
                *config,
                *env,
            ) && !username_ready(*config, *env)
            &&& e is NoEmailPassword <==> client_ready(*config, *env) && telegram_ready(
                *config,
                *env,
            ) && username_ready(*config, *env) && !password_ready(*config, *env)
        },
{
    let profile = match config.models.default_profile() {
        Some(p) => p,
        None => {
            return Err(SetupError::NoProfile);
        },
    };
    let key: Option<&str> = match &env.api_key {
        Some(s) => Some(s.as_str()),
        None => None,
    };
    let provider = match LlmProvider::from_config(profile, key) {
        Ok(p) => p,
        Err(e) => {
            return Err(SetupError::Llm(e));
        },
    };
    let telegram = match telegram_channel(&config.channels.telegram, &env.telegram_token) {
        Ok(t) => t,
        Err(e) => {
            return Err(e);
        },
    };
    let email = match email_channel(
        &config.channels.email,
        &env.email_username,
        &env.email_password,
    ) {
        Ok(e) => e,
        Err(e) => {
            return Err(e);
        },
    };
    let agent = AgentConfig {
        name: owned("main"),
        system_prompt: owned("You are ClawRig, a helpful AI assistant."),
        max_tool_rounds: 10,
        model_override: None,
        yolo_mode: config.agents.defaults.yolo,
    };
    Ok(GatewaySetup { provider, telegram, email, agent })
}

/// The agent that a message goes to: the main one.
pub fn resolve_agent(_message: &InboundMessage) -> (r: String)
    ensures
        r@ == "main"@,
{
    owned("main")
}

/// What an agent is asked for a message.
pub open spec fn inbound_request(agent: Seq<char>, m: InboundView) -> RequestView {
    RequestView {
        agent_id: agent,
        session_id: m.channel + ":"@ + m.peer_id + ":"@ + (match m.conversation_id {
            Some(c) => c,
            None => seq![],
        }),
        channel: m.channel,
        peer_id: m.peer_id,
        content: match m.text {
            Some(t) => t,
            None => seq![],
        },
        attachments: m.attachments,
        run_id: None,
        model_profile: None,
        cancel_token: None,
    }
}

/// Where the answer to a message goes.
#[derive(Debug)]
pub struct ReplyTarget {
    pub agent: String,
    pub channel: String,
    pub conversation_id: Option<String>,
    pub message_id: String,
}

/// What an agent is asked for a message, and where the answer goes.
pub fn accept(agent_id: &str, message: InboundMessage) -> (r: (AgentRequest, ReplyTarget))
    ensures
        r.0@ == inbound_request(agent_id@, message@),
        r.1.agent@ == agent_id@,
        r.1.channel@ == message@.channel,
        opt(r.1.conversation_id) == message@.conversation_id,
        r.1.message_id@ == message@.id,
{
    let ghost m = message@;
    let conversation = match &message.conversation_id {
        Some(c) => c.clone(),
        None => {
            let s = String::new();
            proof {
                assert(s@ =~= seq![]);
            }
            s
        },
    };
    let content = match message.text {
        Some(t) => t,
        None => {
            let s = String::new();
            proof {
                assert(s@ =~= seq![]);
            }
            s
        },
    };
    let request = AgentRequest {
        agent_id: owned(agent_id),
        session_id: cat5(
            message.channel.as_str(),
            ":",
            message.peer_id.as_str(),
            ":",
            conversation.as_str(),
        ),
        channel: message.channel.clone(),
        peer_id: message.peer_id,
        content,
        attachments: message.attachments,
        run_id: None,
        model_profile: None,
        cancel_token: None,
    };
    let target = ReplyTarget {
        agent: owned(agent_id),
        channel: message.channel,
        conversation_id: message.conversation_id,
        message_id: message.id,
    };
    (request, target)
}

/// The answer to a message, where the message stands in a conversation.
pub open spec fn reply_message(
    t: ReplyTarget,
    text: Seq<char>,
    session: Seq<char>,
) -> Option<OutboundView> {
    match opt(t.conversation_id) {
        Some(target) => Some(
            OutboundView {
                channel: t.channel@,
                target,
                reply_to: Some(t.message_id@),
                text,
                attachments: seq![],
                metadata: Json::Table(
                    no_fields().push(("agent"@, Json::Str(t.agent@))).push(
                        ("session"@, Json::Str(session)),
                    ),
                ),
            },
        ),
        None => None,
    }
}

/// The answer to a message.
pub fn reply_to(target: &ReplyTarget, response: &AgentResponse) -> (r: Option<OutboundMessage>)
    ensures
        match reply_message(*target, response.content@, response.session_id@) {
            Some(m) => r is Some && r->0@ == m,
            None => r is None,
        },
{
    match &target.conversation_id {
        Some(chat) => {
            let mut f = Fields::new();
            f.put_str("agent", target.agent.as_str());
            f.put_str("session", response.session_id.as_str());
            let attachments: Vec<Attachment> = Vec::new();
            proof {
                assert(attachments@ =~= seq![]);
            }
            Some(
                OutboundMessage {
                    channel: target.channel.clone(),
                    target: chat.clone(),
                    reply_to: Some(target.message_id.clone()),
                    text: response.content.clone(),
                    attachments,
                    metadata: f.done(),
                },
            )
        },
        None => None,
    }
}

/// An answer goes back to where the message came from: to the same channel, into
/// the same conversation, as an answer to that message; and there is an answer
/// exactly where the message stands in a conversation.
pub proof fn answers_go_back(m: InboundView, t: ReplyTarget, text: Seq<char>, session: Seq<char>)
    requires
        t.channel@ == m.channel,
        opt(t.conversation_id) == m.conversation_id,
        t.message_id@ == m.id,
    ensures
        reply_message(t, text, session) is Some == m.conversation_id is Some,
        reply_message(t, text, session) matches Some(r) ==> r.channel == m.channel && Some(r.target)
            == m.conversation_id && r.reply_to == Some(m.id) && r.text == text,
{
}

/// What an agent is asked from the command line.
pub open spec fn direct_request(agent: Seq<char>, prompt: Seq<char>) -> RequestView {
    RequestView {
        agent_id: agent,
        session_id: "cli:"@ + agent,
        channel: "cli"@,
        peer_id: "operator"@,
        content: prompt,
        attachments: seq![],
        run_id: None,
        model_profile: None,
        cancel_token: None,
    }
}

/// What an agent is asked from the command line.
pub fn request_direct(agent_id: &str, prompt: &str) -> (r: AgentRequest)
    ensures
        r@ == direct_request(agent_id@, prompt@),
{
    let attachments: Vec<Attachment> = Vec::new();
    proof {
        assert(attachments@ =~= seq![]);
    }
    AgentRequest {
        agent_id: owned(agent_id),
        session_id: cat("cli:", agent_id),
        channel: owned("cli"),
        peer_id: owned("operator"),
        content: owned(prompt),
        attachments,
        run_id: None,
        model_profile: None,
        cancel_token: None,
    }
}

/// What is said where there is no agent of a name.
pub fn no_agent_message(agent_id: &str) -> (r: String)
    ensures
        r@ == "Agent '"@ + agent_id@ + "' not found"@,
{
    cat3("Agent '", agent_id, "' not found")
}

/// The names of the fields of an answer differ.
proof fn lemma_reply_names()
    ensures
        "agent"@ != "session"@,
{
    reveal_strlit("agent");
    reveal_strlit("session");
    assert("agent"@.len() == 5);
    assert("session"@.len() == 7);
}


/// What is written to an agent reaches it as it was written, from whom and where it was
/// written; two messages of one peer in one conversation are of one session.
pub proof fn messages_reach_the_agent(agent: Seq<char>, m: InboundView, other: InboundView)
    ensures
        ({
            let r = inbound_request(agent, m);
            &&& r.agent_id == agent
            &&& r.channel == m.channel
            &&& r.peer_id == m.peer_id
            &&& r.attachments == m.attachments
            &&& m.text matches Some(text) ==> r.content == text
            &&& m.text is None ==> r.content.len() == 0
            &&& m.conversation_id matches Some(c) ==> r.session_id == m.channel + ":"@ + m.peer_id
                + ":"@ + c
            &&& r.run_id is None && r.model_profile is None && r.cancel_token is None
            &&& m.channel == other.channel && m.peer_id == other.peer_id && m.conversation_id
                == other.conversation_id ==> inbound_request(agent, other).session_id
                == r.session_id
        }),
{
}

/// What the members of a group write to an agent is stored in one session, and what one
/// of them writes in private in another.
pub proof fn groups_share_a_session(
    allowed: Seq<i64>,
    agent: Seq<char>,
    a: Json,
    b: Json,
    now: i64,
    later: i64,
)
    requires
        inbound_of(allowed, a, now) is Some,
        inbound_of(allowed, b, later) is Some,
        !is_private(a.at("message"@)),
    ensures
        !is_private(b.at("message"@)) && a.at("message"@).at("chat"@).at("id"@) == b.at(
            "message"@,
        ).at("chat"@).at("id"@) ==> place_of(
            inbound_request(agent, inbound_of(allowed, a, now)->0),
        ) == place_of(inbound_request(agent, inbound_of(allowed, b, later)->0)),
        is_private(b.at("message"@)) ==> place_of(
            inbound_request(agent, inbound_of(allowed, a, now)->0),
        ) != place_of(inbound_request(agent, inbound_of(allowed, b, later)->0)),
{
    reveal_strlit("telegram");
    reveal_strlit("web");
    assert("telegram"@.len() == 8 && "web"@.len() == 3);
    members_of_a_group_are_one_peer(allowed, a, b, now, later);
    messages_belong_to_their_chat(allowed, a, now);
    messages_belong_to_their_chat(allowed, b, later);
}

/// An answer says who answers, and in which session.
pub proof fn answers_name_their_agent(t: ReplyTarget, text: Seq<char>, session: Seq<char>)
    ensures
        reply_message(t, text, session) matches Some(r) ==> r.metadata.at("agent"@) == Json::Str(
            t.agent@,
        ) && r.metadata.at("session"@) == Json::Str(session) && r.attachments.len() == 0,
{
    broadcast use lemma_lookup_push;

    lemma_reply_names();
}

/// A setting that is given counts; else the value of the variable that is named for it,
/// and only where one is named.
pub proof fn given_settings_count(
    given: Option<Seq<char>>,
    named: Option<Seq<char>>,
    env: Option<Seq<char>>,
)
    ensures
        given is Some ==> setting(given, named, env) == given,
        given is None && named is Some ==> setting(given, named, env) == env,
        given is None && named is None ==> setting(given, named, env) is None,
{
}

/// A mail channel reads and sends by the hosts that are configured, at the ports that
/// are configured, else at the usual ones, and with the login that it was given.
pub proof fn mail_goes_by_its_hosts(
    e: EmailChannel,
    config: EmailConfig,
    username: Seq<char>,
    password: Seq<char>,
)
    requires
        is_email(e, config, username, password),
    ensures
        e.imap().0 == config.imap_host@,
        e.smtp().0 == config.smtp_host@,
        config.imap_port matches Some(p) ==> e.imap().1 == p,
        config.imap_port is None ==> e.imap().1 == 993,
        config.smtp_port matches Some(p) ==> e.smtp().1 == p,
        config.smtp_port is None ==> e.smtp().1 == 587,
        e.login() == (username, password),
{
}

/// A bot uses the token that it was given, under the policy that is configured.
pub proof fn bots_use_their_token(t: TelegramChannel, config: TelegramConfig, token: Seq<char>)
    requires
        is_telegram(t, config, token),
    ensures
        t.bot_token@ == token,
        t.dm_policy@ == config.dm_policy@,
        forall|user: i64| is_allowed(t.allowed_users@, user),
{
}

/// The agent of the gateway is the main one; it is waved through only where that is
/// configured.
pub proof fn gateways_run_the_main_agent(yolo: bool)
    ensures
        gateway_agent(yolo).name == "main"@,
        gateway_agent(yolo).yolo_mode == yolo,
        gateway_agent(yolo).max_tool_rounds == 10,
        gateway_agent(yolo).model_override is None,
{
}

/// What is asked from the command line reaches the agent as it was asked, and one agent
/// is asked in one session there.
pub proof fn command_line_requests(agent: Seq<char>, prompt: Seq<char>, other: Seq<char>)
    ensures
        direct_request(agent, prompt).agent_id == agent,
        direct_request(agent, prompt).content == prompt,
        direct_request(agent, prompt).channel == "cli"@,
        direct_request(agent, prompt).peer_id == "operator"@,
        direct_request(agent, prompt).session_id == "cli:"@ + agent,
        place_of(direct_request(agent, prompt)) == place_of(direct_request(agent, other)),
{
}

/// A gateway can be set up exactly where there is a profile of a provider that can be
/// asked, with a key, and where every channel that is enabled has what it needs.
pub proof fn enabled_channels_need_their_settings(config: Config, env: EnvValues)
    ensures
        client_ready(config, env) <==> (first_profile(config.models) matches Some(p)
            && p@.provider == "openai"@ && key_of(p@, opt(env.api_key)) is Some),
        config.channels.telegram is None ==> telegram_ready(config, env),
        config.channels.email is None ==> username_ready(config, env) && password_ready(
            config,
            env,
        ),
        config.channels.telegram matches Some(c) ==> (telegram_ready(config, env) <==> !c.enabled
            || setting(opt(c.bot_token), opt(c.bot_token_env), opt(env.telegram_token)) is Some),
        config.channels.email matches Some(c) ==> (username_ready(config, env) <==> !c.enabled
            || setting(opt(c.username), opt(c.username_env), opt(env.email_username)) is Some) && (
        password_ready(config, env) <==> !c.enabled || setting(
            opt(c.password),
            opt(c.password_env),
            opt(env.email_password),
        ) is Some),
        config.channels.email matches Some(c) ==> email_username(c, opt(env.email_username))
            == setting(opt(c.username), opt(c.username_env), opt(env.email_username))
            && email_password(c, opt(env.email_password)) == setting(
            opt(c.password),
            opt(c.password_env),
            opt(env.email_password),
        ),
{
}

/// What is missing for a gateway is said.
pub proof fn missing_settings_are_said(e: LlmError)
    ensures
        SetupError::NoProfile.says() == "No model profile configured"@,
        SetupError::NoTelegramToken.says() == "Telegram bot token not configured"@,
        SetupError::NoEmailUsername.says() == "Email username not configured"@,
        SetupError::NoEmailPassword.says() == "Email password not configured"@,
        SetupError::Llm(e).says() == e.says(),
{
}

} // verus!
