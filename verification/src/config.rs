//! The configuration file's sections, with the values they have by default.
use vstd::prelude::*;

use crate::text::{opt, owned, owned_opt};
use crate::value::{Data, Json};

verus! {

/// The whole configuration.
#[derive(Debug)]
pub struct Config {
    pub server: ServerConfig,
    pub database: DatabaseConfig,
    pub agents: AgentsConfig,
    pub models: ModelsConfig,
    pub channels: ChannelsConfig,
    pub scheduler: SchedulerConfig,
    pub heartbeat: HeartbeatConfig,
}

/// Where the web server listens.
#[derive(Debug)]
pub struct ServerConfig {
    pub host: String,
    pub port: u16,
}

/// The host where none is given.
pub fn default_host() -> (r: String)
    ensures
        r@ == "127.0.0.1"@,
{
    owned("127.0.0.1")
}

/// The port where none is given.
pub fn default_port() -> (r: u16)
    ensures
        r == 18789,
{
    18789
}

/// Where the database file is.
#[derive(Debug)]
pub struct DatabaseConfig {
    pub path: String,
}

/// The database file where none is given.
pub fn default_db_path() -> (r: String)
    ensures
        r@ == "~/.clawrig/clawrig.db"@,
{
    owned("~/.clawrig/clawrig.db")
}

/// The agents, and what holds for all of them.
#[derive(Debug)]
pub struct AgentsConfig {
    pub defaults: AgentDefaults,
    pub agents: Vec<AgentDef>,
}

impl Default for AgentsConfig {
    fn default() -> (r: AgentsConfig)
        ensures
            r.defaults.model@ == "smart"@,
            !r.defaults.yolo,
            r.agents@.len() == 0,
    {
        AgentsConfig { defaults: AgentDefaults::default(), agents: Vec::new() }
    }
}

/// What holds for every agent: the model profile, and whether tools run without
/// being approved.
#[derive(Debug)]
pub struct AgentDefaults {
    pub model: String,
    pub yolo: bool,
}

impl Default for AgentDefaults {
    fn default() -> (r: AgentDefaults)
        ensures
            r.model@ == "smart"@,
            !r.yolo,
    {
        AgentDefaults { model: owned("smart"), yolo: false }
    }
}

/// One agent.
#[derive(Debug)]
pub struct AgentDef {
    pub name: String,
    pub model: Option<String>,
    pub tools: Vec<String>,
    pub bindings: Vec<BindingDef>,
}

/// Which messages go to an agent.
#[derive(Debug)]
pub struct BindingDef {
    pub channel: String,
    pub account: String,
    pub peer: String,
}

/// The account where none is given.
pub fn default_account() -> (r: String)
    ensures
        r@ == "default"@,
{
    owned("default")
}

/// The peer where none is given: any.
pub fn default_peer() -> (r: String)
    ensures
        r@ == "*"@,
{
    owned("*")
}

/// The model profile where none is given.
pub fn default_model() -> (r: String)
    ensures
        r@ == "smart"@,
{
    owned("smart")
}

/// The model profiles.
#[derive(Debug)]
pub struct ModelsConfig {
    pub fast: Option<ModelProfile>,
    pub smart: Option<ModelProfile>,
    pub reasoning: Option<ModelProfile>,
    pub groq: Option<ModelProfile>,
    pub nvidia: Option<ModelProfile>,
}

impl Default for ModelsConfig {
    fn default() -> (r: ModelsConfig)
        ensures
            r.fast is None,
            r.smart is None,
            r.reasoning is None,
            r.groq is None,
            r.nvidia is None,
    {
        ModelsConfig { fast: None, smart: None, reasoning: None, groq: None, nvidia: None }
    }
}

/// A model and how it is reached. The sampling settings are held as decimal
/// texts.
#[derive(Debug)]
pub struct ModelProfile {
    pub provider: String,
    pub model: String,
    pub api_key: Option<String>,
    pub api_key_env: Option<String>,
    pub base_url: Option<String>,
    pub temperature: Option<String>,
    pub max_tokens: Option<u32>,
    pub top_p: Option<String>,
    pub extra_body: Option<Data>,
}

/// What a model profile says.
pub struct ProfileView {
    pub provider: Seq<char>,
    pub model: Seq<char>,
    pub api_key: Option<Seq<char>>,
    pub api_key_env: Option<Seq<char>>,
    pub base_url: Option<Seq<char>>,
    pub temperature: Option<Seq<char>>,
    pub max_tokens: Option<u32>,
    pub top_p: Option<Seq<char>>,
    pub extra_body: Option<Json>,
}

impl View for ModelProfile {
    type V = ProfileView;

    open spec fn view(&self) -> ProfileView {
        ProfileView {
            provider: self.provider@,
            model: self.model@,
            api_key: opt(self.api_key),
            api_key_env: opt(self.api_key_env),
            base_url: opt(self.base_url),
            temperature: opt(self.temperature),
            max_tokens: self.max_tokens,
            top_p: opt(self.top_p),
            extra_body: match self.extra_body {
                Some(d) => Some(d@),
                None => None,
            },
        }
    }
}

impl Clone for ModelProfile {
    fn clone(&self) -> (r: ModelProfile)
        ensures
            r@ == self@,
    {
        ModelProfile {
            provider: self.provider.clone(),
            model: self.model.clone(),
            api_key: owned_opt(&self.api_key),
            api_key_env: owned_opt(&self.api_key_env),
            base_url: owned_opt(&self.base_url),
            temperature: owned_opt(&self.temperature),
            max_tokens: self.max_tokens,
            top_p: owned_opt(&self.top_p),
            extra_body: match &self.extra_body {
                Some(d) => Some(d.clone()),
                None => None,
            },
        }
    }
}

/// The channels by which messages come and go.
#[derive(Debug)]
pub struct ChannelsConfig {
    pub telegram: Option<TelegramConfig>,
    pub email: Option<EmailConfig>,
}

impl Default for ChannelsConfig {
    fn default() -> (r: ChannelsConfig)
        ensures
            r.telegram is None,
            r.email is None,
    {
        ChannelsConfig { telegram: None, email: None }
    }
}

/// The Telegram bot.
#[derive(Debug)]
pub struct TelegramConfig {
    pub enabled: bool,
    pub dm_policy: String,
    pub bot_token_env: Option<String>,
    pub bot_token: Option<String>,
}

/// The policy for direct messages where none is given.
pub fn default_dm_policy() -> (r: String)
    ensures
        r@ == "pairing"@,
{
    owned("pairing")
}

/// The mail account.
#[derive(Debug)]
pub struct EmailConfig {
    pub enabled: bool,
    pub imap_host: String,
    pub imap_port: Option<u16>,
    pub smtp_host: String,
    pub smtp_port: Option<u16>,
    pub username_env: Option<String>,
    pub password_env: Option<String>,
    pub username: Option<String>,
    pub password: Option<String>,
}

/// Whether scheduled jobs run.
#[derive(Debug)]
pub struct SchedulerConfig {
    pub enabled: bool,
}

impl Default for SchedulerConfig {
    fn default() -> (r: SchedulerConfig)
        ensures
            r.enabled,
    {
        SchedulerConfig { enabled: true }
    }
}

/// What a switch is where nothing is given: on.
pub fn default_true() -> (r: bool)
    ensures
        r,
{
    true
}

/// Whether, and how often, the agents are woken.
#[derive(Debug)]
pub struct HeartbeatConfig {
    pub enabled: bool,
    pub interval: String,
}

impl Default for HeartbeatConfig {
    fn default() -> (r: HeartbeatConfig)
        ensures
            r.enabled,
            r.interval@ == "30m"@,
    {
        HeartbeatConfig { enabled: true, interval: owned("30m") }
    }
}

/// The interval where none is given.
pub fn default_interval() -> (r: String)
    ensures
        r@ == "30m"@,
{
    owned("30m")
}

/// The profile of the first configured model, of the fast, the smart and the
/// reasoning one, in that order.
pub open spec fn first_profile(models: ModelsConfig) -> Option<ModelProfile> {
    if models.fast is Some {
        models.fast
    } else if models.smart is Some {
        models.smart
    } else {
        models.reasoning
    }
}

impl ModelsConfig {
    /// The profile that the language model client is made from: the first of the
    /// fast, the smart and the reasoning one that is configured.
    pub fn default_profile(&self) -> (r: Option<&ModelProfile>)
        ensures
            match r {
                Some(p) => first_profile(*self) == Some(*p),
                None => first_profile(*self) is None,
            },
    {
        match &self.fast {
            Some(p) => Some(p),
            None => match &self.smart {
                Some(p) => Some(p),
                None => self.reasoning.as_ref(),
            },
        }
    }
}

/// The fast model is asked first, then the smart one, then the reasoning one.
pub proof fn first_configured_model_counts(models: ModelsConfig)
    ensures
        models.fast is Some ==> first_profile(models) == models.fast,
        models.fast is None && models.smart is Some ==> first_profile(models) == models.smart,
        models.fast is None && models.smart is None ==> first_profile(models) == models.reasoning,
{
}

} // verus!
