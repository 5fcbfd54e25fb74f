//! Running shell commands.
use vstd::prelude::*;

use crate::numbers::{hex, hexadecimal};
use crate::patterns::{all_matches, find_all, is_pattern, match_each, match_views, pattern_matches};
use crate::text::{
    byte_len, bytes_in, cat3, cat4, from_utf8_lossy, lossy, opt, owned, trim, trimmed,
};
use crate::value::{lemma_lookup_push, no_fields, Data, Fields, Json};

use super::filesystem::{resolve_path, resolved_path};
use super::{ResultView, ToolContext, ToolError, ToolResult};

verus! {

/// What was found in a command by the pattern for PowerShell wrappers: the
/// command inside, where it is not blank.
pub open spec fn inner_command(found: Seq<Seq<Option<Seq<char>>>>) -> Option<Seq<char>> {
    if found.len() > 0 && found[0].len() > 1 && found[0][1] is Some && trimmed(
        found[0][1]->0,
    ).len() > 0 {
        Some(trimmed(found[0][1]->0))
    } else {
        None
    }
}

/// The command inside a PowerShell wrapper, given what was found.
pub fn read_inner(found: &Vec<Vec<Option<String>>>) -> (r: Option<String>)
    ensures
        opt(r) == inner_command(match_views(found@)),
{
    if found.len() > 0 && found[0].len() > 1 {
        proof {
            assert(match_views(found@)[0] == crate::patterns::group_views(found@[0]@));
        }
        match &found[0][1] {
            Some(s) => {
                let t = trim(s.as_str());
                if !t.as_str().is_empty() {
                    return Some(t);
                }
            },
            None => {},
        }
    }
    None
}

/// The command inside a PowerShell wrapper such as `powershell -Command "..."`,
/// where the command is one.
pub open spec fn unwrapped(command: Seq<char>) -> Option<Seq<char>> {
    inner_command(
        all_matches(
            r#"(?i)^(?:pwsh|powershell)(?:\.exe)?\s+(?:-\w+\s+)*-Command\s+["']?(.*?)["']?\s*$"#@,
            trimmed(command),
        ),
    )
}

/// The command inside a PowerShell wrapper, where the command is one.
pub fn unwrap_powershell_wrapper(command: &str) -> (r: Option<String>)
    ensures
        opt(r) == unwrapped(command@),
{
    let found = find_all(
        r#"(?i)^(?:pwsh|powershell)(?:\.exe)?\s+(?:-\w+\s+)*-Command\s+["']?(.*?)["']?\s*$"#,
        trim(command).as_str(),
    );
    read_inner(&found)
}

/// Whether a command is written for PowerShell.
pub open spec fn is_powershell(command: Seq<char>) -> bool {
    let pattern =
        r#"(?i)\[System\.|Get-Date|ConvertTime|\.ToString\(|\$env:|\bGet-\w+\(|\bSet-\w+\(|\bWrite-\w+\(|\bNew-\w+\(|\bConvert-\w+\(|\bSelect-Object|\bMeasure-Object"#@;
    is_pattern(pattern) && pattern_matches(pattern, command)
}

/// Whether a command is written for PowerShell.
pub fn is_powershell_syntax(command: &str) -> (r: bool)
    ensures
        r == is_powershell(command@),
{
    let mut commands: Vec<String> = Vec::new();
    commands.push(owned(command));
    match match_each(
        r#"(?i)\[System\.|Get-Date|ConvertTime|\.ToString\(|\$env:|\bGet-\w+\(|\bSet-\w+\(|\bWrite-\w+\(|\bNew-\w+\(|\bConvert-\w+\(|\bSelect-Object|\bMeasure-Object"#,
        &commands,
    ) {
        Some(matched) => matched[0],
        None => false,
    }
}

/// How a command is run.
#[derive(Debug)]
pub enum Launch {
    /// By `sh -c`.
    Sh,
    /// By `cmd /C`.
    Cmd,
    /// By PowerShell, from a file with that script.
    PowerShell(String),
}

/// How a command is run, as it is meant.
pub enum LaunchView {
    Sh,
    Cmd,
    PowerShell(Seq<char>),
}

impl View for Launch {
    type V = LaunchView;

    open spec fn view(&self) -> LaunchView {
        match self {
            Launch::Sh => LaunchView::Sh,
            Launch::Cmd => LaunchView::Cmd,
            Launch::PowerShell(s) => LaunchView::PowerShell(s@),
        }
    }
}

/// How a command is run on Windows: by PowerShell where what it wraps, or else
/// the command itself, is written for it. `inner` is what the command wraps, with
/// whether that is written for PowerShell.
pub open spec fn windows_launch(
    command: Seq<char>,
    inner: Option<(Seq<char>, bool)>,
    outer: bool,
) -> LaunchView {
    match inner {
        Some((script, true)) => LaunchView::PowerShell(script),
        _ => if outer {
            LaunchView::PowerShell(command)
        } else {
            LaunchView::Cmd
        },
    }
}

/// How a command is run on Windows.
pub fn choose_launch(command: &str, inner: Option<(String, bool)>, outer: bool) -> (r: Launch)
    ensures
        r@ == windows_launch(
            command@,
            match inner {
                Some((script, powershell)) => Some((script@, powershell)),
                None => None,
            },
            outer,
        ),
{
    match inner {
        Some((script, true)) => Launch::PowerShell(script),
        _ => if outer {
            Launch::PowerShell(owned(command))
        } else {
            Launch::Cmd
        },
    }
}

/// How a command is run.
pub open spec fn launch(command: Seq<char>, windows: bool) -> LaunchView {
    if windows {
        windows_launch(
            command,
            match unwrapped(command) {
                Some(script) => Some((script, is_powershell(script))),
                None => None,
            },
            is_powershell(command),
        )
    } else {
        LaunchView::Sh
    }
}

/// How a command is run.
pub fn plan_launch(command: &str, windows: bool) -> (r: Launch)
    ensures
        r@ == launch(command@, windows),
{
    if windows {
        let inner = match unwrap_powershell_wrapper(command) {
            Some(script) => {
                let powershell = is_powershell_syntax(script.as_str());
                Some((script, powershell))
            },
            None => None,
        };
        choose_launch(command, inner, is_powershell_syntax(command))
    } else {
        Launch::Sh
    }
}

/// The name of the file for a PowerShell script: made from the time and the
/// process that writes it.
pub fn script_name(nanos: u64, pid: u32) -> (r: String)
    ensures
        r@ == "clawrig_"@ + hex((nanos ^ ((pid as u64) << 32)) as nat) + ".ps1"@,
{
    let id: u64 = nanos ^ ((pid as u64) << 32);
    cat3("clawrig_", hexadecimal(id).as_str(), ".ps1")
}

/// How long a command may run: thirty seconds where nothing is given, and five
/// minutes at most.
pub open spec fn seconds_for(input: Json) -> int {
    match input.at("timeout"@).uint() {
        Some(n) => if n < 300 {
            n
        } else {
            300
        },
        None => 30,
    }
}

/// A command that is to be run.
#[derive(Debug)]
pub struct ShellPlan {
    pub command: String,
    pub timeout_secs: u64,
    pub working_dir: Option<String>,
    pub launch: Launch,
}

/// Whether a plan is what the input asks for.
pub open spec fn is_shell_plan(p: ShellPlan, ctx: ToolContext, input: Json, windows: bool) -> bool {
    &&& input.at("command"@) == Json::Str(p.command@)
    &&& p.timeout_secs == seconds_for(input)
    &&& opt(p.working_dir) == (match input.at("working_dir"@).text() {
        Some(dir) => Some(resolved_path(ctx, dir)),
        None => None,
    })
    &&& p.launch@ == launch(p.command@, windows)
}

/// What a command printed, as one text: what it printed on both outputs is told
/// apart.
pub open spec fn printed(out: Seq<char>, err: Seq<char>) -> Seq<char> {
    if err.len() == 0 {
        out
    } else if out.len() == 0 {
        err
    } else {
        "STDOUT:\n"@ + out + "\n\nSTDERR:\n"@ + err
    }
}

/// The result of a command.
pub open spec fn shell_result(
    command: Seq<char>,
    out: Seq<char>,
    err: Seq<char>,
    exit_code: Option<i32>,
    success: bool,
) -> ResultView {
    ResultView {
        success,
        content: printed(out, err),
        metadata: Some(
            Json::Table(
                no_fields().push(("command"@, Json::Str(command))).push(
                    (
                        "exit_code"@,
                        Json::Num(
                            match exit_code {
                                Some(n) => n as int,
                                None => -1,
                            },
                        ),
                    ),
                ).push(("stdout_len"@, Json::Num(bytes_in(out) as int))).push(
                    ("stderr_len"@, Json::Num(bytes_in(err) as int)),
                ),
            ),
        ),
    }
}

/// Runs a shell command.
pub struct ShellExecTool;

impl ShellExecTool {
    /// The command that is run, and how.
    pub fn plan(ctx: &ToolContext, input: &Data, windows: bool) -> (r: Result<ShellPlan, ToolError>)
        ensures
            match input@.at("command"@).text() {
                Some(command) => r matches Ok(p) && {
                    &&& p.command@ == command
                    &&& p.timeout_secs == seconds_for(input@)
                    &&& opt(p.working_dir) == (match input@.at("working_dir"@).text() {
                        Some(dir) => Some(resolved_path(*ctx, dir)),
                        None => None,
                    })
                    &&& p.launch@ == launch(command, windows)
                    &&& is_shell_plan(p, *ctx, input@, windows)
                },
                None => r matches Err(e) && e.message@ == "Missing 'command' parameter"@,
            },
    {
        let command = match input.str_at("command") {
            Some(s) => owned(s),
            None => {
                return Err(ToolError::new("Missing 'command' parameter"));
            },
        };
        let timeout_secs: u64 = match input.u64_at("timeout") {
            Some(n) => if n < 300 {
                n
            } else {
                300
            },
            None => 30,
        };
        let working_dir = match input.str_at("working_dir") {
            Some(dir) => Some(resolve_path(ctx, dir)),
            None => None,
        };
        let launch = plan_launch(command.as_str(), windows);
        Ok(ShellPlan { command, timeout_secs, working_dir, launch })
    }

    /// The result for the texts that a command printed.
    pub fn report(
        command: &str,
        out: String,
        err: String,
        exit_code: Option<i32>,
        success: bool,
    ) -> (r: ToolResult)
        ensures
            r@ == shell_result(command@, out@, err@, exit_code, success),
    {
        let out_len = byte_len(out.as_str());
        let err_len = byte_len(err.as_str());
        let code: i32 = match exit_code {
            Some(n) => n,
            None => -1,
        };
        let content = if err.as_str().is_empty() {
            out
        } else if out.as_str().is_empty() {
            err
        } else {
            cat4("STDOUT:\n", out.as_str(), "\n\nSTDERR:\n", err.as_str())
        };
        let mut f = Fields::new();
        f.put_str("command", command);
        f.put("exit_code", Data::Int(code as i64));
        f.put_uint("stdout_len", out_len as u64);
        f.put_uint("stderr_len", err_len as u64);
        ToolResult { success, content, metadata: Some(f.done()) }
    }

    /// The result for the bytes that a command printed.
    pub fn finish(
        command: &str,
        stdout: &Vec<u8>,
        stderr: &Vec<u8>,
        exit_code: Option<i32>,
        success: bool,
    ) -> (r: ToolResult)
        ensures
            r@ == shell_result(command@, lossy(stdout@), lossy(stderr@), exit_code, success),
    {
        Self::report(
            command,
            from_utf8_lossy(stdout),
            from_utf8_lossy(stderr),
            exit_code,
            success,
        )
    }
}

/// The names of what is said of a command differ.
proof fn lemma_shell_names()
    ensures
        "command"@ != "exit_code"@,
        "command"@ != "stdout_len"@,
        "command"@ != "stderr_len"@,
        "exit_code"@ != "stdout_len"@,
        "exit_code"@ != "stderr_len"@,
        "stdout_len"@ != "stderr_len"@,
{
    reveal_strlit("command");
    reveal_strlit("exit_code");
    reveal_strlit("stdout_len");
    reveal_strlit("stderr_len");
    assert("command"@.len() == 7);
    assert("exit_code"@.len() == 9);
    assert("stdout_len"@.len() == 10);
    assert("stderr_len"@.len() == 10);
    assert("stdout_len"@[3] == 'o' && "stderr_len"@[3] == 'e');
}


/// The command that is asked for is the one that is run, in the directory that is asked
/// for, below the workspace where it is relative; and outside Windows by the shell.
pub proof fn commands_are_run_as_asked(p: ShellPlan, ctx: ToolContext, input: Json, windows: bool)
    requires
        is_shell_plan(p, ctx, input, windows),
    ensures
        input.at("command"@) == Json::Str(p.command@),
        input.at("working_dir"@) matches Json::Str(dir) ==> (p.working_dir matches Some(d) && d@
            == resolved_path(ctx, dir)),
        !(input.at("working_dir"@) is Str) ==> p.working_dir is None,
        !windows ==> p.launch is Sh,
        !(input.at("timeout"@) is Num) ==> p.timeout_secs == 30,
        input.at("timeout"@) matches Json::Num(n) && 0 <= n <= 300 ==> p.timeout_secs == input.at(
            "timeout"@,
        )->Num_0,
        p.timeout_secs <= 300,
{
}

/// On Windows a command that wraps PowerShell is run by PowerShell without its wrapper,
/// one that is itself written for PowerShell is run by PowerShell as it is, and any other
/// by the command processor. Elsewhere every command is run by the shell.
pub proof fn commands_find_their_shell(command: Seq<char>, script: Seq<char>)
    ensures
        launch(command, false) == LaunchView::Sh,
        unwrapped(command) == Some(script) && is_powershell(script) ==> launch(command, true)
            == LaunchView::PowerShell(script),
        unwrapped(command) is None && is_powershell(command) ==> launch(command, true)
            == LaunchView::PowerShell(command),
        unwrapped(command) == Some(script) && !is_powershell(script) && is_powershell(command)
            ==> launch(command, true) == LaunchView::PowerShell(command),
        !is_powershell(command) && (unwrapped(command) matches Some(s) ==> !is_powershell(s))
            ==> launch(command, true) == LaunchView::Cmd,
{
}

/// A wrapped command is what stands in the first group of the first match, without white
/// space around it, where that is not blank.
pub proof fn wrapped_commands_are_taken_out(found: Seq<Seq<Option<Seq<char>>>>, inner: Seq<char>)
    requires
        found.len() > 0,
        found[0].len() > 1,
    ensures
        found[0][1] == Some(inner) && trimmed(inner).len() > 0 ==> inner_command(found) == Some(
            trimmed(inner),
        ),
        found[0][1] == Some(inner) && trimmed(inner).len() == 0 ==> inner_command(found) is None,
        found[0][1] is None ==> inner_command(found) is None,
        inner_command(seq![]) is None,
{
}

/// All that a command printed is shown: what it printed on its one output, or on its two
/// outputs one after the other.
pub proof fn all_output_is_shown(out: Seq<char>, err: Seq<char>)
    ensures
        err.len() == 0 ==> printed(out, err) == out,
        out.len() == 0 ==> printed(out, err) == err,
        out.len() > 0 && err.len() > 0 ==> printed(out, err) == "STDOUT:\n"@ + out
            + "\n\nSTDERR:\n"@ + err,
{
    if out.len() == 0 && err.len() == 0 {
        assert(out =~= err);
    }
}

/// The result of a command says which command it was, how it ended, and how much it
/// printed; and it is a success exactly where the command was.
pub proof fn commands_are_reported(
    command: Seq<char>,
    out: Seq<char>,
    err: Seq<char>,
    exit_code: Option<i32>,
    success: bool,
)
    ensures
        ({
            let r = shell_result(command, out, err, exit_code, success);
            &&& r.success == success
            &&& r.content == printed(out, err)
            &&& r.metadata matches Some(m) && m.at("command"@) == Json::Str(command) && m.at(
                "exit_code"@,
            ) == Json::Num(
                match exit_code {
                    Some(n) => n as int,
                    None => -1int,
                },
            ) && m.at("stdout_len"@) == Json::Num(bytes_in(out) as int) && m.at("stderr_len"@)
                == Json::Num(bytes_in(err) as int)
        }),
{
    broadcast use lemma_lookup_push;

    lemma_shell_names();
}

} // verus!
