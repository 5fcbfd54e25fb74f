//! Which tools an agent may call, and how a call that needs it is approved.
use std::collections::hash_map::DefaultHasher;
use std::hash::{BuildHasher, BuildHasherDefault};
use vstd::prelude::*;

use crate::name_map::TextMap;
use crate::numbers::{hex, hexadecimal};
use crate::text::{owned, str_eq, texts};
use crate::tools::{
    built_in_tools_are_as_listed, default_names, default_registry, PermissionMode, ToolPermission,
};

verus! {

/// The permissions of each agent for each tool.
pub struct PermissionConfig {
    pub agent_permissions: TextMap<TextMap<ToolPermission>>,
}

impl PermissionConfig {
    /// The mode that is set for an agent and a tool, where one is set.
    pub open spec fn set_mode(self, agent: Seq<char>, tool: Seq<char>) -> Option<PermissionMode> {
        let agents = self.agent_permissions@;
        if agents.contains_key(agent) && agents[agent]@.contains_key(tool) {
            Some(agents[agent]@[tool].mode)
        } else {
            None
        }
    }

    /// The mode that holds for an agent and a tool: the one that is set, else a
    /// question for a tool that runs, writes or deletes, else allowance.
    pub open spec fn mode(self, agent: Seq<char>, tool: Seq<char>) -> PermissionMode {
        match self.set_mode(agent, tool) {
            Some(mode) => mode,
            None => if changes_things(tool) {
                PermissionMode::Ask
            } else {
                PermissionMode::Allow
            },
        }
    }

    /// Whether this is the configuration without one of the user's own: the main
    /// agent is asked about shell commands and about writing in the workspace, and
    /// nothing else is set.
    pub open spec fn is_default(self) -> bool {
        let main = self.agent_permissions@["main"@]@;
        &&& self.agent_permissions@.dom() == set!["main"@]
        &&& main.dom() == set!["shell_exec"@, "fs_write"@]
        &&& main["shell_exec"@].mode == PermissionMode::Ask
        &&& main["shell_exec"@].scopes@.len() == 0
        &&& main["fs_write"@].mode == PermissionMode::Ask
        &&& texts(main["fs_write"@].scopes@) == seq!["~/workspace/**"@]
    }
}

/// Whether a tool of this name runs something, or writes or deletes files.
pub open spec fn changes_things(tool: Seq<char>) -> bool {
    tool == "shell_exec"@ || tool == "fs_write"@ || tool == "write_file"@ || tool == "edit_file"@
        || tool == "delete_file"@ || tool == "git_commit"@
}

/// Whether a tool of this name runs something, or writes or deletes files.
fn makes_changes(tool: &str) -> (r: bool)
    ensures
        r == changes_things(tool@),
{
    str_eq(tool, "shell_exec") || str_eq(tool, "fs_write") || str_eq(tool, "write_file") || str_eq(
        tool,
        "edit_file",
    ) || str_eq(tool, "delete_file") || str_eq(tool, "git_commit")
}

/// Answers what an agent may call.
pub struct PermissionManager {
    pub config: PermissionConfig,
}

impl PermissionManager {
    /// A manager of these permissions.
    pub fn new(config: PermissionConfig) -> (r: PermissionManager)
        ensures
            r.config == config,
    {
        PermissionManager { config }
    }

    /// The mode that holds for an agent and a tool.
    pub fn check_permission(&self, agent_id: &str, tool_name: &str) -> (r: PermissionMode)
        ensures
            r == self.config.mode(agent_id@, tool_name@),
    {
        match self.config.agent_permissions.get(agent_id) {
            Some(tools) => match tools.get(tool_name) {
                Some(permission) => {
                    return permission.mode;
                },
                None => {},
            },
            None => {},
        }
        if makes_changes(tool_name) {
            PermissionMode::Ask
        } else {
            PermissionMode::Allow
        }
    }
}

impl Default for PermissionConfig {
    /// The main agent is asked about shell commands, and about writing in the
    /// workspace. Nothing else is set; the other tools that write or delete are asked
    /// about without that.
    fn default() -> (r: PermissionConfig)
        ensures
            r.is_default(),
    {
        let mut main: TextMap<ToolPermission> = TextMap::new();
        main.insert("shell_exec", ToolPermission { mode: PermissionMode::Ask, scopes: Vec::new() });
        let mut scopes: Vec<String> = Vec::new();
        scopes.push(owned("~/workspace/**"));
        proof {
            assert(texts(scopes@) =~= seq!["~/workspace/**"@]);
            reveal_strlit("shell_exec");
            reveal_strlit("fs_write");
            assert("shell_exec"@.len() != "fs_write"@.len());
        }
        main.insert("fs_write", ToolPermission { mode: PermissionMode::Ask, scopes });
        proof {
            assert(main@.dom() =~= set!["shell_exec"@, "fs_write"@]);
        }
        let mut agent_permissions: TextMap<TextMap<ToolPermission>> = TextMap::new();
        agent_permissions.insert("main", main);
        proof {
            assert(agent_permissions@.dom() =~= set!["main"@]);
        }
        PermissionConfig { agent_permissions }
    }
}

/// Where nothing is set for an agent and a built-in tool, or the configuration is the
/// default one, the tools that write, run or delete (`write_file`, `edit_file`,
/// `delete_file`, `shell_exec` and `git_commit`) are asked about, and every other
/// built-in tool is allowed.
pub proof fn changes_are_asked_about(
    config: PermissionConfig,
    agent: Seq<char>,
    tool: Seq<char>,
)
    requires
        config.is_default() || config.set_mode(agent, tool) is None,
        default_registry().tools.contains_key(tool),
    ensures
        config.mode(agent, tool) == (if tool == "write_file"@ || tool == "edit_file"@ || tool
            == "delete_file"@ || tool == "shell_exec"@ || tool == "git_commit"@ {
            PermissionMode::Ask
        } else {
            PermissionMode::Allow
        }),
{
    built_in_tools_are_as_listed();
    lemma_no_fs_write();
    assert(default_names().to_set().contains(tool));
    assert(default_names().contains(tool));
    assert(tool != "fs_write"@);
}

/// No built-in tool has the name `fs_write`.
proof fn lemma_no_fs_write()
    ensures
        !default_names().contains("fs_write"@),
{
    reveal_strlit("fs_write");
    reveal_strlit("read_file");
    reveal_strlit("write_file");
    reveal_strlit("list_dir");
    reveal_strlit("delete_file");
    reveal_strlit("shell_exec");
    reveal_strlit("web_fetch");
    reveal_strlit("web_search");
    reveal_strlit("glob");
    reveal_strlit("grep");
    reveal_strlit("todo_list");
    reveal_strlit("edit_file");
    reveal_strlit("git_status");
    reveal_strlit("git_diff");
    reveal_strlit("git_commit");
    let names = default_names();
    assert forall|i: int| 0 <= i < names.len() implies names[i] != "fs_write"@ by {
        let a = names[i];
        assert(a.len() != "fs_write"@.len() || a[0] != 'f');
    }
}

/// How long a request for approval stands, in seconds.
pub const APPROVAL_SECONDS: i64 = 300;

/// The hash of a text (`BuildHasher::hash_one` of the standard library's default
/// hasher).
pub uninterp spec fn default_hash(text: Seq<char>) -> u64;

/// `BuildHasher::hash_one` of the standard library's default hasher: a number that
/// depends on the text alone, since all hashers that are made by default are the
/// same. Which number it is, is not said.
#[verifier::external_body]
fn hash_of(text: &str) -> (r: u64)
    ensures
        r == default_hash(text@),
{
    BuildHasherDefault::<DefaultHasher>::default().hash_one(text)
}

/// The text of a hash: in hexadecimal digits.
pub fn hash_text(hash: u64) -> (r: String)
    ensures
        r@ == hex(hash as nat),
{
    hexadecimal(hash)
}

/// The text of the hash of a call's arguments: the same for the same arguments.
pub fn arguments_hash(arguments: &str) -> (r: String)
    ensures
        r@ == hex(default_hash(arguments@) as nat),
{
    hash_text(hash_of(arguments))
}

/// What the status of a request for approval decides, where it decides.
pub open spec fn verdict(status: Option<Seq<char>>) -> Option<PermissionMode> {
    match status {
        Some(s) => if s == "approved"@ {
            Some(PermissionMode::Allow)
        } else if s == "denied"@ || s == "expired"@ {
            Some(PermissionMode::Deny)
        } else {
            None
        },
        None => None,
    }
}

/// What waiting for an approval comes to, given the status at each check: the
/// first status that decides, of the checks that are left, or else denial.
pub open spec fn outcome(statuses: Seq<Option<Seq<char>>>, checks: int) -> PermissionMode
    decreases statuses.len(),
{
    if checks >= 60 || statuses.len() == 0 {
        PermissionMode::Deny
    } else {
        match verdict(statuses[0]) {
            Some(mode) => mode,
            None => outcome(statuses.drop_first(), checks + 1),
        }
    }
}

/// A wait for an approval: the status is checked every five seconds, at most
/// sixty times.
pub struct ApprovalWait {
    checks: u32,
}

impl ApprovalWait {
    /// How often the status was checked.
    pub closed spec fn checks(self) -> int {
        self.checks as int
    }

    /// A wait that begins.
    pub fn new() -> (r: ApprovalWait)
        ensures
            r.checks() == 0,
    {
        ApprovalWait { checks: 0 }
    }

    /// Whether the time is up, and the call denied.
    pub fn is_over(&self) -> (r: bool)
        ensures
            r == (self.checks() >= 60),
            r == is_too_late(self.checks()),
    {
        self.checks >= 60
    }

    /// Looks at the status, where the time is not up. What comes back is the
    /// decision, or nothing where the status has to be checked again.
    pub fn check(&mut self, status: Option<&str>) -> (r: Option<PermissionMode>)
        requires
            old(self).checks() < 60,
        ensures
            r == verdict(
                match status {
                    Some(s) => Some(s@),
                    None => None,
                },
            ),
            final(self).checks() == (if r is Some {
                old(self).checks()
            } else {
                old(self).checks() + 1
            }),
    {
        match status {
            Some(s) => if str_eq(s, "approved") {
                return Some(PermissionMode::Allow);
            } else if str_eq(s, "denied") || str_eq(s, "expired") {
                return Some(PermissionMode::Deny);
            },
            None => {},
        }
        self.checks = self.checks + 1;
        None
    }
}

/// Whether so many checks are all that are made.
pub open spec fn is_too_late(checks: int) -> bool {
    checks >= 60
}

/// An approval is waited for as long as fewer than sixty checks were made, and from then
/// on nothing that is seen counts.
pub proof fn approvals_are_waited_for(checks: int, statuses: Seq<Option<Seq<char>>>)
    ensures
        is_too_late(checks) <==> checks > 59,
        is_too_late(checks) ==> outcome(statuses, checks) == PermissionMode::Deny,
        !is_too_late(checks) && statuses.len() > 0 && statuses[0] == Some("approved"@) ==> outcome(
            statuses,
            checks,
        ) == PermissionMode::Allow,
{
}

/// A call is allowed only where its request was seen approved at one of the
/// first sixty checks, and at no earlier check denied or expired; otherwise it
/// is denied.
pub proof fn only_an_approval_allows(statuses: Seq<Option<Seq<char>>>)
    ensures
        outcome(statuses, 0) == PermissionMode::Allow || outcome(statuses, 0)
            == PermissionMode::Deny,
        outcome(statuses, 0) == PermissionMode::Allow <==> exists|i: int|
            0 <= i < 60 && i < statuses.len() && #[trigger] statuses[i] == Some("approved"@) && (
            forall|j: int| 0 <= j < i ==> verdict(#[trigger] statuses[j]) is None),
{
    lemma_outcome(statuses, 0);
    if outcome(statuses, 0) == PermissionMode::Allow {
        let i = choose|i: int|
            0 <= i < 60 - 0 && i < statuses.len() && #[trigger] statuses[i] == Some("approved"@) && (
            forall|j: int| 0 <= j < i ==> verdict(#[trigger] statuses[j]) is None);
        assert(statuses[i] == Some("approved"@));
    }
}

/// When waiting, with some checks done, comes to an allowance.
proof fn lemma_outcome(statuses: Seq<Option<Seq<char>>>, checks: int)
    requires
        0 <= checks,
    ensures
        outcome(statuses, checks) == PermissionMode::Allow || outcome(statuses, checks)
            == PermissionMode::Deny,
        outcome(statuses, checks) == PermissionMode::Allow <==> exists|i: int|
            0 <= i < 60 - checks && i < statuses.len() && #[trigger] statuses[i] == Some(
                "approved"@,
            ) && (forall|j: int| 0 <= j < i ==> verdict(#[trigger] statuses[j]) is None),
    decreases statuses.len(),
{
    reveal_strlit("approved");
    reveal_strlit("denied");
    reveal_strlit("expired");
    assert("approved"@.len() == 8 && "denied"@.len() == 6 && "expired"@.len() == 7);
    if checks < 60 && statuses.len() > 0 {
        let rest = statuses.drop_first();
        lemma_outcome(rest, checks + 1);
        if verdict(statuses[0]) is None {
            if outcome(rest, checks + 1) == PermissionMode::Allow {
                let i = choose|i: int|
                    0 <= i < 60 - (checks + 1) && i < rest.len() && #[trigger] rest[i] == Some(
                        "approved"@,
                    ) && (forall|j: int| 0 <= j < i ==> verdict(#[trigger] rest[j]) is None);
                assert(statuses[i + 1] == rest[i]);
                assert forall|j: int| 0 <= j < i + 1 implies verdict(
                    #[trigger] statuses[j],
                ) is None by {
                    if j > 0 {
                        assert(statuses[j] == rest[j - 1]);
                    }
                }
            }
            assert forall|i: int|
                0 <= i < 60 - checks && i < statuses.len() && #[trigger] statuses[i] == Some(
                    "approved"@,
                ) && (forall|j: int| 0 <= j < i ==> verdict(#[trigger] statuses[j]) is None)
                implies outcome(rest, checks + 1) == PermissionMode::Allow by {
                assert(i > 0);
                assert(rest[i - 1] == statuses[i]);
                assert forall|j: int| 0 <= j < i - 1 implies verdict(#[trigger] rest[j]) is None by {
                    assert(rest[j] == statuses[j + 1]);
                }
            }
        } else {
            assert forall|i: int|
                0 <= i < 60 - checks && i < statuses.len() && #[trigger] statuses[i] == Some(
                    "approved"@,
                ) && (forall|j: int| 0 <= j < i ==> verdict(#[trigger] statuses[j]) is None)
                implies i == 0 by {
                if i > 0 {
                    assert(verdict(statuses[0]) is None);
                }
            }
            assert(statuses[0] == statuses[0]);
        }
    }
}

/// A mode that is set for an agent and a tool holds for them, whatever the tool does;
/// and it holds for no other agent and no other tool.
pub proof fn set_modes_hold(
    config: PermissionConfig,
    agent: Seq<char>,
    tool: Seq<char>,
    mode: PermissionMode,
)
    requires
        config.agent_permissions@.contains_key(agent),
        config.agent_permissions@[agent]@.contains_key(tool),
        config.agent_permissions@[agent]@[tool].mode == mode,
    ensures
        config.mode(agent, tool) == mode,
        forall|other: Seq<char>|
            !config.agent_permissions@.contains_key(other) ==> #[trigger] config.mode(other, tool)
                == PermissionMode::Ask || config.mode(other, tool) == PermissionMode::Allow,
{
}

/// Where nothing is set, no tool is denied: what runs, writes or deletes is asked about,
/// and the rest allowed, for every agent alike.
pub proof fn unset_modes_look_at_the_tool(
    config: PermissionConfig,
    agent: Seq<char>,
    other: Seq<char>,
    tool: Seq<char>,
)
    requires
        config.set_mode(agent, tool) is None,
        config.set_mode(other, tool) is None,
    ensures
        config.mode(agent, tool) == config.mode(other, tool),
        config.mode(agent, tool) == PermissionMode::Ask <==> seq![
            "shell_exec"@,
            "fs_write"@,
            "write_file"@,
            "edit_file"@,
            "delete_file"@,
            "git_commit"@,
        ].contains(tool),
        config.mode(agent, tool) == PermissionMode::Allow || config.mode(agent, tool)
            == PermissionMode::Ask,
{
    let all = seq![
        "shell_exec"@,
        "fs_write"@,
        "write_file"@,
        "edit_file"@,
        "delete_file"@,
        "git_commit"@,
    ];
    assert(all[0] == "shell_exec"@ && all[1] == "fs_write"@ && all[2] == "write_file"@ && all[3]
        == "edit_file"@ && all[4] == "delete_file"@ && all[5] == "git_commit"@);
}

/// A request that was approved allows the call, one that was denied or has expired
/// denies it, and any other status decides nothing.
pub proof fn statuses_decide(status: Seq<char>)
    ensures
        verdict(Some("approved"@)) == Some(PermissionMode::Allow),
        verdict(Some("denied"@)) == Some(PermissionMode::Deny),
        verdict(Some("expired"@)) == Some(PermissionMode::Deny),
        status != "approved"@ && status != "denied"@ && status != "expired"@ ==> verdict(
            Some(status),
        ) is None,
        verdict(None) is None,
{
    reveal_strlit("approved");
    reveal_strlit("denied");
    reveal_strlit("expired");
    assert("approved"@.len() == 8 && "denied"@.len() == 6 && "expired"@.len() == 7);
}

/// Where nothing is configured, the main agent asks before it runs a command, and before
/// it writes a file, which it may do below the workspace; nothing else is settled.
pub proof fn defaults_ask_before_changes(p: PermissionConfig, tool: Seq<char>, agent: Seq<char>)
    requires
        p.is_default(),
    ensures
        p.agent_permissions@.contains_key(agent) <==> agent == "main"@,
        p.agent_permissions@["main"@]@.contains_key(tool) <==> tool == "shell_exec"@ || tool
            == "fs_write"@,
        p.agent_permissions@["main"@]@.contains_key(tool)
            ==> p.agent_permissions@["main"@]@[tool].mode == PermissionMode::Ask,
        p.agent_permissions@["main"@]@["shell_exec"@].scopes@.len() == 0,
        p.agent_permissions@["main"@]@["fs_write"@].scopes@.len() == 1,
        p.agent_permissions@["main"@]@["fs_write"@].scopes@[0]@ == "~/workspace/**"@,
{
    let scopes = p.agent_permissions@["main"@]@["fs_write"@].scopes@;
    assert(texts(scopes).len() == 1);
    assert(texts(scopes)[0] == "~/workspace/**"@);
}

} // verus!
