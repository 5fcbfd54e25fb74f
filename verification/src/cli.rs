//! The commands of the program, and what is printed for them.
use vstd::prelude::*;

use crate::config::Config;
use crate::numbers::{dec, decimal};
use crate::text::{cat, cat3, owned, texts};

verus! {

/// What the program is called with.
#[derive(Debug)]
pub struct Cli {
    pub config: String,
    pub command: Commands,
}

/// What the program is to do.
#[derive(Debug)]
pub enum Commands {
    Start,
    Serve { port: Option<u16>, ui: bool, yolo: bool },
    Doctor,
    Status,
    Agent { command: AgentCommands },
    Session { command: SessionCommands },
    Cron { command: CronCommands },
    Memory { query: String },
    Provider,
    Logs,
}

/// What is to be done with agents.
#[derive(Debug)]
pub enum AgentCommands {
    List,
    Run { agent: String, prompt: String },
}

/// What is to be done with sessions.
#[derive(Debug)]
pub enum SessionCommands {
    List,
    Reset { agent: String },
}

/// What is to be done with scheduled jobs.
#[derive(Debug)]
pub enum CronCommands {
    List,
    Add { agent: String, schedule: String, prompt: String },
    Delete { id: String },
}

/// No lines.
pub open spec fn no_lines() -> Seq<Seq<char>> {
    Seq::empty()
}

/// Adds a line.
fn say(out: &mut Vec<String>, line: String)
    ensures
        texts(final(out)@) == texts(old(out)@).push(line@),
{
    let ghost before = texts(out@);
    out.push(line);
    proof {
        assert(texts(out@) =~= before.push(line@));
    }
}

/// Starts with a line.
fn first(line: &str) -> (r: Vec<String>)
    ensures
        texts(r@) == no_lines().push(line@),
{
    let mut out: Vec<String> = Vec::new();
    proof {
        assert(texts(out@) =~= no_lines());
    }
    say(&mut out, owned(line));
    out
}

/// Two lines.
fn pair(one: &str, two: &str) -> (r: Vec<String>)
    ensures
        texts(r@) == no_lines().push(one@).push(two@),
{
    let mut out = first(one);
    say(&mut out, owned(two));
    out
}

/// What is printed for a command that needs nothing but its own arguments.
pub open spec fn answer(command: Commands) -> Option<Seq<Seq<char>>> {
    match command {
        Commands::Status => Some(
            no_lines().push("ClawRig Status"@).push("(Gateway must be running for live status)"@),
        ),
        Commands::Agent { command: AgentCommands::List } => Some(
            no_lines().push("Agents:"@).push("  main (default)"@),
        ),
        Commands::Session { command: SessionCommands::List } => Some(
            no_lines().push("Sessions:"@).push("(Run 'clawrig start' to see active sessions)"@),
        ),
        Commands::Session { command: SessionCommands::Reset { agent } } => Some(
            no_lines().push("Reset session for agent: "@ + agent@),
        ),
        Commands::Cron { command: CronCommands::List } => Some(
            no_lines().push("Scheduled jobs:"@).push("(Run 'clawrig start' to see active jobs)"@),
        ),
        Commands::Cron { command: CronCommands::Add { agent, schedule, prompt } } => Some(
            no_lines().push("Added cron job:"@).push("  Agent: "@ + agent@).push(
                "  Schedule: "@ + schedule@,
            ).push("  Prompt: "@ + prompt@),
        ),
        Commands::Cron { command: CronCommands::Delete { id } } => Some(
            no_lines().push("Deleted job: "@ + id@),
        ),
        Commands::Memory { query } => Some(
            no_lines().push("Memory search: "@ + query@).push(
                "(Run 'clawrig start' to search memory)"@,
            ),
        ),
        Commands::Provider => Some(
            no_lines().push("Model providers:"@).push(
                "(Configure in config.toml under [models.*])"@,
            ),
        ),
        Commands::Logs => Some(
            no_lines().push("Logs:"@).push("(Run 'clawrig start' to see live logs)"@),
        ),
        _ => None,
    }
}

impl Commands {
    /// What is printed for the command, where it needs nothing but its own
    /// arguments.
    pub fn output(&self) -> (r: Option<Vec<String>>)
        ensures
            match answer(*self) {
                Some(lines) => r matches Some(v) && texts(v@) == lines,
                None => r is None,
            },
    {
        match self {
            Commands::Status => Some(
                pair("ClawRig Status", "(Gateway must be running for live status)"),
            ),
            Commands::Agent { command: AgentCommands::List } => Some(
                pair("Agents:", "  main (default)"),
            ),
            Commands::Session { command: SessionCommands::List } => Some(
                pair("Sessions:", "(Run 'clawrig start' to see active sessions)"),
            ),
            Commands::Session { command: SessionCommands::Reset { agent } } => Some(
                first(cat("Reset session for agent: ", agent.as_str()).as_str()),
            ),
            Commands::Cron { command: CronCommands::List } => Some(
                pair("Scheduled jobs:", "(Run 'clawrig start' to see active jobs)"),
            ),
            Commands::Cron { command: CronCommands::Add { agent, schedule, prompt } } => {
                let mut out = first("Added cron job:");
                say(&mut out, cat("  Agent: ", agent.as_str()));
                say(&mut out, cat("  Schedule: ", schedule.as_str()));
                say(&mut out, cat("  Prompt: ", prompt.as_str()));
                Some(out)
            },
            Commands::Cron { command: CronCommands::Delete { id } } => Some(
                first(cat("Deleted job: ", id.as_str()).as_str()),
            ),
            Commands::Memory { query } => Some(
                pair(
                    cat("Memory search: ", query.as_str()).as_str(),
                    "(Run 'clawrig start' to search memory)",
                ),
            ),
            Commands::Provider => Some(
                pair("Model providers:", "(Configure in config.toml under [models.*])"),
            ),
            Commands::Logs => Some(pair("Logs:", "(Run 'clawrig start' to see live logs)")),
            _ => None,
        }
    }
}

/// How the web server is to run.
#[derive(Debug)]
pub struct ServePlan {
    pub port: u16,
    pub address: String,
    pub yolo: bool,
    pub banner: Vec<String>,
}

/// What is printed when the web server runs.
pub open spec fn banner_lines(port: nat, ui: bool) -> Seq<Seq<char>> {
    if ui {
        no_lines().push(""@).push("  ClawRig Web UI: http://localhost:"@ + dec(port)).push(
            "  API:            http://localhost:"@ + dec(port) + "/api/health"@,
        ).push("  SSE Events:     http://localhost:"@ + dec(port) + "/api/events"@).push(""@)
    } else {
        no_lines().push(""@).push(
            "  ClawRig API: http://localhost:"@ + dec(port) + "/api/health"@,
        ).push("  UI disabled (use --ui to enable)"@).push(""@)
    }
}

/// The port that the web server runs on.
pub open spec fn serve_port(given: Option<u16>, configured: u16) -> u16 {
    match given {
        Some(p) => p,
        None => configured,
    }
}

/// Whether the web server runs without asking for approval.
pub open spec fn serve_yolo(given: bool, configured: bool) -> bool {
    given || configured
}

/// The port of the command line counts, and that of the configuration only where none is
/// given; and nothing is waved through unless the command line or the configuration says
/// so.
pub proof fn command_line_counts(given: Option<u16>, configured: u16, yolo: bool, set: bool)
    ensures
        given matches Some(p) ==> serve_port(given, configured) == p,
        given is None ==> serve_port(given, configured) == configured,
        serve_yolo(yolo, set) <==> yolo || set,
{
}

/// How the web server is to run: on the port that is given, or else on the
/// configured one, and without asking for approval where the command or the
/// configuration says so.
pub fn plan_serve(port: Option<u16>, ui: bool, yolo: bool, config: &Config) -> (r: ServePlan)
    ensures
        r.port == (match port {
            Some(p) => p,
            None => config.server.port,
        }),
        r.address@ == "0.0.0.0:"@ + dec(r.port as nat),
        r.yolo == (yolo || config.agents.defaults.yolo),
        texts(r.banner@) == banner_lines(r.port as nat, ui),
        r.port == serve_port(port, config.server.port),
        r.yolo == serve_yolo(yolo, config.agents.defaults.yolo),
{
    let port: u16 = match port {
        Some(p) => p,
        None => config.server.port,
    };
    let n = decimal(port as u64);
    let mut banner = first("");
    if ui {
        say(&mut banner, cat("  ClawRig Web UI: http://localhost:", n.as_str()));
        say(
            &mut banner,
            cat3("  API:            http://localhost:", n.as_str(), "/api/health"),
        );
        say(
            &mut banner,
            cat3("  SSE Events:     http://localhost:", n.as_str(), "/api/events"),
        );
    } else {
        say(&mut banner, cat3("  ClawRig API: http://localhost:", n.as_str(), "/api/health"));
        say(&mut banner, owned("  UI disabled (use --ui to enable)"));
    }
    say(&mut banner, owned(""));
    ServePlan {
        port,
        address: cat("0.0.0.0:", n.as_str()),
        yolo: yolo || config.agents.defaults.yolo,
        banner,
    }
}

/// What the health check prints first.
pub open spec fn doctor_head() -> Seq<Seq<char>> {
    no_lines().push(""@).push("ClawRig Doctor"@).push(""@).push("Checking configuration..."@)
}

/// What the health check says of the database.
pub open spec fn with_database(lines: Seq<Seq<char>>, error: Option<Seq<char>>) -> Seq<Seq<char>> {
    match error {
        None => lines.push("  \u{2713} Database accessible"@),
        Some(e) => lines.push("  \u{2717} Database: "@ + e),
    }
}

/// What the health check says of the Telegram channel.
pub open spec fn with_telegram(
    lines: Seq<Seq<char>>,
    config: Config,
    env_set: bool,
) -> Seq<Seq<char>> {
    match config.channels.telegram {
        Some(telegram) => if !telegram.enabled {
            lines
        } else if telegram.bot_token is Some {
            lines.push("  \u{2713} Telegram token configured"@)
        } else {
            match telegram.bot_token_env {
                Some(env) => if env_set {
                    lines.push("  \u{2713} Telegram token from env"@)
                } else {
                    lines.push("  \u{2717} Telegram env var '"@ + env@ + "' not set"@)
                },
                None => lines.push("  \u{2717} Telegram token not configured"@),
            }
        },
        None => lines,
    }
}

/// What the health check says of the email channel.
pub open spec fn with_email(lines: Seq<Seq<char>>, config: Config) -> Seq<Seq<char>> {
    match config.channels.email {
        Some(email) => if email.enabled {
            lines.push("  \u{2713} Email configured (IMAP: "@ + email.imap_host@ + ")"@)
        } else {
            lines
        },
        None => lines,
    }
}

/// A line, where it applies.
pub open spec fn line_if(lines: Seq<Seq<char>>, applies: bool, line: Seq<char>) -> Seq<Seq<char>> {
    if applies {
        lines.push(line)
    } else {
        lines
    }
}

/// What the health check says of the models.
pub open spec fn with_models(lines: Seq<Seq<char>>, config: Config) -> Seq<Seq<char>> {
    let m = config.models;
    let a = line_if(lines, m.fast is Some, "  \u{2713} Fast model configured"@);
    let b = line_if(a, m.smart is Some, "  \u{2713} Smart model configured"@);
    let c = line_if(b, m.reasoning is Some, "  \u{2713} Reasoning model configured"@);
    line_if(
        c,
        m.fast is None && m.smart is None && m.reasoning is None,
        "  \u{2717} No models configured"@,
    )
}

/// The report of the health check. `database` is the error with which the
/// database could not be opened, if any; `env_set` is whether the variable of the
/// environment that holds the token of the Telegram channel is set.
pub fn doctor_report(config: &Config, database: Option<&str>, env_set: bool) -> (r: Vec<String>)
    ensures
        texts(r@) == with_models(
            with_email(
                with_telegram(
                    with_database(
                        doctor_head().push("  \u{2713} Configuration loaded"@),
                        (match database {
                            Some(e) => Some(e@),
                            None => None,
                        }),
                    ),
                    *config,
                    env_set,
                ),
                *config,
            ),
            *config,
        ).push(""@).push("Ready."@),
{
    let mut out = doctor_start();
    say(&mut out, owned("  \u{2713} Configuration loaded"));
    match database {
        None => say(&mut out, owned("  \u{2713} Database accessible")),
        Some(e) => say(&mut out, cat("  \u{2717} Database: ", e)),
    }
    match &config.channels.telegram {
        Some(telegram) => {
            if telegram.enabled {
                if telegram.bot_token.is_some() {
                    say(&mut out, owned("  \u{2713} Telegram token configured"));
                } else {
                    match &telegram.bot_token_env {
                        Some(env) => {
                            if env_set {
                                say(&mut out, owned("  \u{2713} Telegram token from env"));
                            } else {
                                say(
                                    &mut out,
                                    cat3(
                                        "  \u{2717} Telegram env var '",
                                        env.as_str(),
                                        "' not set",
                                    ),
                                );
                            }
                        },
                        None => {
                            say(&mut out, owned("  \u{2717} Telegram token not configured"));
                        },
                    }
                }
            }
        },
        None => {},
    }
    match &config.channels.email {
        Some(email) => {
            if email.enabled {
                say(
                    &mut out,
                    cat3(
                        "  \u{2713} Email configured (IMAP: ",
                        email.imap_host.as_str(),
                        ")",
                    ),
                );
            }
        },
        None => {},
    }
    let mut has_model = false;
    if config.models.fast.is_some() {
        say(&mut out, owned("  \u{2713} Fast model configured"));
        has_model = true;
    }
    if config.models.smart.is_some() {
        say(&mut out, owned("  \u{2713} Smart model configured"));
        has_model = true;
    }
    if config.models.reasoning.is_some() {
        say(&mut out, owned("  \u{2713} Reasoning model configured"));
        has_model = true;
    }
    if !has_model {
        say(&mut out, owned("  \u{2717} No models configured"));
    }
    say(&mut out, owned(""));
    say(&mut out, owned("Ready."));
    out
}

/// The report of the health check where the configuration could not be loaded.
pub fn doctor_failed(error: &str) -> (r: Vec<String>)
    ensures
        texts(r@) == doctor_head().push("  \u{2717} Configuration: "@ + error@).push(""@).push(
            "Create a config file at ~/.clawrig/config.toml"@,
        ),
{
    let mut out = doctor_start();
    say(&mut out, cat("  \u{2717} Configuration: ", error));
    say(&mut out, owned(""));
    say(&mut out, owned("Create a config file at ~/.clawrig/config.toml"));
    out
}

/// What the health check prints first.
fn doctor_start() -> (r: Vec<String>)
    ensures
        texts(r@) == doctor_head(),
{
    let mut out = pair("", "ClawRig Doctor");
    say(&mut out, owned(""));
    say(&mut out, owned("Checking configuration..."));
    out
}

/// A command that was carried out is answered with what it was about: the agent, the
/// job, the query. The commands that need the rest of the program have no such answer,
/// and every other command has one.
pub proof fn commands_are_answered(
    agent: String,
    schedule: String,
    prompt: String,
    id: String,
    query: String,
    command: Commands,
)
    ensures
        answer(Commands::Session { command: SessionCommands::Reset { agent } }) matches Some(lines)
            && lines.len() == 1 && lines[0] == "Reset session for agent: "@ + agent@,
        answer(
            Commands::Cron { command: CronCommands::Add { agent, schedule, prompt } },
        ) matches Some(lines) && lines.len() == 4 && lines[0] == "Added cron job:"@ && lines[1]
            == "  Agent: "@ + agent@ && lines[2] == "  Schedule: "@ + schedule@ && lines[3]
            == "  Prompt: "@ + prompt@,
        answer(Commands::Cron { command: CronCommands::Delete { id } }) matches Some(lines)
            && lines.len() == 1 && lines[0] == "Deleted job: "@ + id@,
        answer(Commands::Memory { query }) matches Some(lines) && lines.len() == 2 && lines[0]
            == "Memory search: "@ + query@,
        answer(command) is None <==> (command is Start || command is Serve || command is Doctor || (
        command matches Commands::Agent { command: c } && c is Run)),
{
}

/// The banner tells where the server is reached: at its port.
pub proof fn banners_tell_the_port(port: nat, ui: bool)
    ensures
        ui ==> banner_lines(port, ui).contains("  ClawRig Web UI: http://localhost:"@ + dec(port)),
        ui ==> banner_lines(port, ui).contains(
            "  API:            http://localhost:"@ + dec(port) + "/api/health"@,
        ),
        ui ==> banner_lines(port, ui).contains(
            "  SSE Events:     http://localhost:"@ + dec(port) + "/api/events"@,
        ),
        !ui ==> banner_lines(port, ui).contains(
            "  ClawRig API: http://localhost:"@ + dec(port) + "/api/health"@,
        ),
        !ui ==> banner_lines(port, ui).contains("  UI disabled (use --ui to enable)"@),
{
    let lines = banner_lines(port, ui);
    if ui {
        assert(lines[1] == "  ClawRig Web UI: http://localhost:"@ + dec(port));
        assert(lines[2] == "  API:            http://localhost:"@ + dec(port) + "/api/health"@);
        assert(lines[3] == "  SSE Events:     http://localhost:"@ + dec(port) + "/api/events"@);
    } else {
        assert(lines[1] == "  ClawRig API: http://localhost:"@ + dec(port) + "/api/health"@);
        assert(lines[2] == "  UI disabled (use --ui to enable)"@);
    }
}

/// The health check says of each part whether it is in order, in one more line at most:
/// the database; the token of a bot that is enabled, given, in the environment, or
/// missing; the mail account that is enabled; and the models, of which one at least is
/// needed.
pub proof fn doctors_tell_what_is_missing(
    lines: Seq<Seq<char>>,
    config: Config,
    env_set: bool,
    error: Seq<char>,
)
    ensures
        with_database(lines, None) == lines.push("  \u{2713} Database accessible"@),
        with_database(lines, Some(error)) == lines.push("  \u{2717} Database: "@ + error),
        config.channels.telegram matches Some(t) ==> {
            &&& !t.enabled ==> with_telegram(lines, config, env_set) == lines
            &&& t.enabled && t.bot_token is Some ==> with_telegram(lines, config, env_set)
                == lines.push("  \u{2713} Telegram token configured"@)
            &&& t.enabled && t.bot_token is None && t.bot_token_env is Some && env_set
                ==> with_telegram(lines, config, env_set) == lines.push(
                "  \u{2713} Telegram token from env"@,
            )
            &&& t.enabled && t.bot_token is None && t.bot_token_env is Some && !env_set
                ==> with_telegram(lines, config, env_set) == lines.push(
                "  \u{2717} Telegram env var '"@ + t.bot_token_env->0@ + "' not set"@,
            )
            &&& t.enabled && t.bot_token is None && t.bot_token_env is None ==> with_telegram(
                lines,
                config,
                env_set,
            ) == lines.push("  \u{2717} Telegram token not configured"@)
        },
        config.channels.telegram is None ==> with_telegram(lines, config, env_set) == lines,
        config.channels.email matches Some(e) ==> {
            &&& e.enabled ==> with_email(lines, config) == lines.push(
                "  \u{2713} Email configured (IMAP: "@ + e.imap_host@ + ")"@,
            )
            &&& !e.enabled ==> with_email(lines, config) == lines
        },
        config.channels.email is None ==> with_email(lines, config) == lines,
        ({
            let m = config.models;
            let said = with_models(lines, config);
            &&& lines.is_prefix_of(said)
            &&& m.fast is None && m.smart is None && m.reasoning is None ==> said == lines.push(
                "  \u{2717} No models configured"@,
            )
            &&& m.fast is Some ==> said.contains("  \u{2713} Fast model configured"@)
            &&& m.smart is Some ==> said.contains("  \u{2713} Smart model configured"@)
            &&& m.reasoning is Some ==> said.contains("  \u{2713} Reasoning model configured"@)
            &&& said.len() == lines.len() + (if m.fast is Some {
                1int
            } else {
                0
            }) + (if m.smart is Some {
                1int
            } else {
                0
            }) + (if m.reasoning is Some {
                1int
            } else {
                0
            }) + (if m.fast is None && m.smart is None && m.reasoning is None {
                1int
            } else {
                0
            })
        }),
{
    let m = config.models;
    let said = with_models(lines, config);
    let n = lines.len() as int;
    if m.fast is Some {
        assert(said[n] == "  \u{2713} Fast model configured"@);
    }
    if m.smart is Some {
        let k = n + (if m.fast is Some {
            1int
        } else {
            0
        });
        assert(said[k] == "  \u{2713} Smart model configured"@);
    }
    if m.reasoning is Some {
        assert(said.last() == "  \u{2713} Reasoning model configured"@);
    }
}

} // verus!
