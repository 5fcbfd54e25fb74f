//! The agents of a configuration.
use vstd::prelude::*;

use crate::agent::{AgentConfig, ConfigView};
use crate::config::{AgentDef, Config};
use crate::name_map::NameMap;
use crate::text::{begins, cat, cat4, ends, opt, owned, owned_opt, texts};
use crate::tools::lists_all;

verus! {

/// What every agent is told of the way it works: the user watches in an editor,
/// so code belongs into files, and not into the chat.
pub const IDE_WORKSPACE_RULES: &'static str =
    "\n\n## IDE workspace rules
The user is watching you work in a code editor panel (a file explorer + CodeMirror). Chat is for conversation only - code lives in files.

- ALWAYS put code, configs, scripts, and any file content into files using the tools: `write_file` to create or overwrite a file, `edit_file` for targeted find-and-replace edits, `delete_file` to remove files, `read_file` / `list_dir` to inspect, `git_status` / `git_diff` to review changes.
- NEVER paste code, file contents, configs, or diffs into your chat reply. Chat replies must be concise conversational updates: 1-4 short sentences saying what you did, what you plan next, or asking the user a question. No code blocks, no file dumps.
- Every file you write or edit appears automatically in the user's editor and is shown with a highlight, so you can just tell the user the file paths you touched instead of repeating their contents.
- When a task needs several files (e.g. a script plus its config), create them all with tools in the same run rather than describing them in chat.
- If the user asks to see code, write or open the relevant file with a tool and reference its path - do not paste the code in chat.
- Use `shell_exec` to run builds, tests, or the created files when verifying your work.

## Agentic work loop (open-code style)
Approach every task as an autonomous engineering agent, like opencode's build agent:

1. **Discover before acting.** Explore the workspace with `glob` and `grep` (e.g. `glob **/*.rs`, `grep pattern path=.`) and `read_file` / `list_dir` to understand existing code before writing anything. Never guess paths or duplicate logic that already exists.
2. **Plan, then track.** For multi-step tasks, first call `todo_list` with op=add for each step (or op=list to check state), then mark steps op=update status=in_progress / completed as you go. The user sees this list.
3. **Reason with context.** If you need external or current information (docs, APIs, versions), use `web_search` for results and `web_fetch` for pages - do not rely on possibly-outdated knowledge.
4. **Edit precisely.** Prefer `edit_file` with exact old_string/new_string for small targeted changes (after reading the file); use `write_file` for new or heavily changed files. Verify old_string uniqueness like opencode does - if ambiguous, read more context first.
5. **Verify your work.** After changing code, run builds/tests/scripts with `shell_exec` (e.g. `cargo check`, `npm test`, `python script.py`) and fix failures until it works. Check `git_status` / `git_diff` before and after to confirm only intended changes.
6. **Stay in scope.** Respect the permission gate: build/plan/ask behaviors are normal; destructive or long-running commands may require user approval - proceed when allowed, explain briefly when blocked.
7. **Keep chat concise.** These rules still apply while you work: chat stays conversational (1-4 short sentences); all code and file content goes through tools.";

/// The main agent.
pub open spec fn main_agent(yolo: bool) -> ConfigView {
    ConfigView {
        name: "main"@,
        system_prompt: "You are ClawRig, a coding agent that works inside a web IDE."@
            + IDE_WORKSPACE_RULES@,
        max_tool_rounds: 10,
        model_override: None,
        yolo_mode: yolo,
    }
}

/// An agent that is configured.
pub open spec fn configured_agent(def: AgentDef, yolo: bool) -> ConfigView {
    ConfigView {
        name: def.name@,
        system_prompt: "You are "@ + def.name@
            + ", a specialized coding agent that works inside a web IDE."@ + IDE_WORKSPACE_RULES@,
        max_tool_rounds: 10,
        model_override: opt(def.model),
        yolo_mode: yolo,
    }
}

/// The agents: the main one, and those that are configured, of which a later one
/// takes the place of an earlier one of the same name.
pub open spec fn agents_of(defs: Seq<AgentDef>, yolo: bool) -> Map<Seq<char>, ConfigView>
    decreases defs.len(),
{
    if defs.len() == 0 {
        Map::empty().insert("main"@, main_agent(yolo))
    } else {
        agents_of(defs.drop_last(), yolo).insert(
            defs.last().name@,
            configured_agent(defs.last(), yolo),
        )
    }
}

/// The agents by name.
pub struct AgentManager {
    agents: NameMap<AgentConfig>,
}

impl View for AgentManager {
    type V = Map<Seq<char>, ConfigView>;

    closed spec fn view(&self) -> Map<Seq<char>, ConfigView> {
        self.agents@.map_values(|c: AgentConfig| c@)
    }
}

impl AgentManager {
    /// The map of the agents is in order.
    pub closed spec fn wf(&self) -> bool {
        self.agents.wf()
    }

    /// No agents.
    pub fn new() -> (r: AgentManager)
        ensures
            r.wf(),
            (r@ == Map::<Seq<char>, ConfigView>::empty()),
    {
        let r = AgentManager { agents: NameMap::new() };
        proof {
            assert(r@ =~= Map::<Seq<char>, ConfigView>::empty());
        }
        r
    }

    /// Adds an agent under a name.
    fn add_agent(&mut self, name: &str, config: AgentConfig)
        requires
            old(self).wf(),
        ensures
            final(self).wf(),
            final(self)@ == old(self)@.insert(name@, config@),
    {
        let ghost added = config@;
        self.agents.insert(name, config);
        proof {
            assert(self@ =~= old(self)@.insert(name@, added));
        }
    }

    /// The agents of a configuration.
    pub fn from_config(config: &Config) -> (r: AgentManager)
        ensures
            r.wf(),
            r@ == agents_of(config.agents.agents@, config.agents.defaults.yolo),
    {
        let yolo = config.agents.defaults.yolo;
        let mut manager = AgentManager::new();
        manager.add_agent(
            "main",
            AgentConfig {
                name: owned("main"),
                system_prompt: cat(
                    "You are ClawRig, a coding agent that works inside a web IDE.",
                    IDE_WORKSPACE_RULES,
                ),
                max_tool_rounds: 10,
                model_override: None,
                yolo_mode: yolo,
            },
        );
        let defs = &config.agents.agents;
        let ghost all = defs@;
        proof {
            assert(all.take(0) =~= seq![]);
        }
        for i in 0..defs.len()
            invariant
                manager.wf(),
                all == defs@,
                manager@ == agents_of(all.take(i as int), yolo),
        {
            let def = &defs[i];
            proof {
                assert(all.take(i + 1).drop_last() =~= all.take(i as int));
                assert(all.take(i + 1).last() == *def);
            }
            manager.add_agent(
                def.name.as_str(),
                AgentConfig {
                    name: def.name.clone(),
                    system_prompt: cat4(
                        "You are ",
                        def.name.as_str(),
                        ", a specialized coding agent that works inside a web IDE.",
                        IDE_WORKSPACE_RULES,
                    ),
                    max_tool_rounds: 10,
                    model_override: owned_opt(&def.model),
                    yolo_mode: yolo,
                },
            );
        }
        proof {
            assert(all.take(all.len() as int) =~= all);
        }
        manager
    }

    /// The agent of a name.
    pub fn get(&self, name: &str) -> (r: Option<&AgentConfig>)
        requires
            self.wf(),
        ensures
            r is Some == self@.contains_key(name@),
            r is Some ==> r->0@ == self@[name@],
    {
        self.agents.get(name)
    }

    /// The names of the agents, each once, in an order that is left open.
    pub fn list(&self) -> (r: Vec<String>)
        ensures
            lists_all(texts(r@), self@),
    {
        proof {
            assert(self@.dom() =~= self.agents@.dom());
        }
        self.agents.names()
    }

    /// How many agents there are.
    pub fn count(&self) -> (n: usize)
        ensures
            n == self@.dom().len(),
    {
        proof {
            assert(self@.dom() =~= self.agents@.dom());
        }
        self.agents.len()
    }
}

/// There is always a main agent, and every agent that is configured is there,
/// under its name.
pub proof fn configured_agents_are_there(defs: Seq<AgentDef>, yolo: bool)
    ensures
        agents_of(defs, yolo).contains_key("main"@),
        forall|i: int|
            0 <= i < defs.len() ==> agents_of(defs, yolo).contains_key(
                (#[trigger] defs[i]).name@,
            ) && agents_of(defs, yolo)[defs[i].name@].name == defs[i].name@,
        forall|name: Seq<char>| #[trigger]
            agents_of(defs, yolo).contains_key(name) ==> agents_of(defs, yolo)[name].yolo_mode
                == yolo && agents_of(defs, yolo)[name].max_tool_rounds == 10,
    decreases defs.len(),
{
    if defs.len() > 0 {
        let head = defs.drop_last();
        configured_agents_are_there(head, yolo);
        assert forall|i: int| 0 <= i < defs.len() implies agents_of(defs, yolo).contains_key(
            (#[trigger] defs[i]).name@,
        ) && agents_of(defs, yolo)[defs[i].name@].name == defs[i].name@ by {
            if i < head.len() {
                assert(head[i] == defs[i]);
            }
        }
    }
}

/// Whatever a text begins with, it ends with what was put to its end.
proof fn lemma_ends(a: Seq<char>, b: Seq<char>)
    ensures
        ends(a + b, b),
{
    assert((a + b).subrange(a.len() as int, (a + b).len() as int) =~= b);
}

/// Every agent's system prompt ends with the rules of the workspace.
pub proof fn every_agent_has_the_rules(defs: Seq<AgentDef>, yolo: bool, name: Seq<char>)
    requires
        agents_of(defs, yolo).contains_key(name),
    ensures
        ends(agents_of(defs, yolo)[name].system_prompt, IDE_WORKSPACE_RULES@),
    decreases defs.len(),
{
    if defs.len() == 0 {
        lemma_ends(
            "You are ClawRig, a coding agent that works inside a web IDE."@,
            IDE_WORKSPACE_RULES@,
        );
    } else if name == defs.last().name@ {
        lemma_ends(
            "You are "@ + name + ", a specialized coding agent that works inside a web IDE."@,
            IDE_WORKSPACE_RULES@,
        );
    } else {
        every_agent_has_the_rules(defs.drop_last(), yolo, name);
    }
}

/// An agent is set up as it is configured: with the model that it names, and a prompt
/// that tells it its name. Of two that are configured under one name the later one
/// counts; the main agent is the usual one unless one of that name is configured.
pub proof fn agents_are_set_up_as_configured(
    defs: Seq<AgentDef>,
    def: AgentDef,
    yolo: bool,
    other: Seq<char>,
)
    ensures
        ({
            let all = agents_of(defs.push(def), yolo);
            &&& all.contains_key(def.name@)
            &&& all[def.name@].name == def.name@
            &&& all[def.name@].model_override == opt(def.model)
            &&& all[def.name@].yolo_mode == yolo
            &&& begins(all[def.name@].system_prompt, "You are "@ + def.name@)
            &&& other != def.name@ ==> (all.contains_key(other) <==> agents_of(
                defs,
                yolo,
            ).contains_key(other)) && (all.contains_key(other) ==> all[other] == agents_of(
                defs,
                yolo,
            )[other])
        }),
        agents_of(seq![], yolo).dom() == set!["main"@],
        agents_of(seq![], yolo)["main"@].name == "main"@,
        agents_of(seq![], yolo)["main"@].model_override is None,
        agents_of(seq![], yolo)["main"@].max_tool_rounds == 10,
{
    assert(defs.push(def).drop_last() =~= defs);
    let prompt = configured_agent(def, yolo).system_prompt;
    let front = "You are "@ + def.name@;
    assert(prompt.subrange(0, front.len() as int) =~= front);
    assert(agents_of(seq![], yolo).dom() =~= set!["main"@]);
}

/// Every agent is told who it is, and then how it works; and it may use tools in ten
/// rounds.
pub proof fn agents_are_told_who_they_are(defs: Seq<AgentDef>, def: AgentDef, yolo: bool)
    ensures
        ({
            let agent = agents_of(defs.push(def), yolo)[def.name@];
            &&& agent.system_prompt == "You are "@ + def.name@
                + ", a specialized coding agent that works inside a web IDE."@
                + IDE_WORKSPACE_RULES@
            &&& agent.max_tool_rounds == 10
        }),
        agents_of(seq![], yolo)["main"@].system_prompt
            == "You are ClawRig, a coding agent that works inside a web IDE."@
            + IDE_WORKSPACE_RULES@,
        agents_of(seq![], yolo)["main"@].yolo_mode == yolo,
{
    assert(defs.push(def).drop_last() =~= defs);
}

} // verus!
