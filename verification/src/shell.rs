//! The handlers of the `shell` and `shell_command` tools.

use crate::error::{respond, responds, FunctionCallError};
use crate::exec::{
    asked_or_default, clone_strings, shell_exec_params, takes_settings, ExecParams,
    TurnExecSettings,
};
use crate::json::{json_members, json_object, json_text};
use crate::shell_request::ShellRuntimeBackend;
use crate::tool::{ShellCommandToolCallParams, ShellToolCallParams, ToolKind, ToolPayload};
use vstd::prelude::*;

verus! {

/// The handler of the `shell` tool.
pub struct ShellHandler;

/// How the `shell_command` tool runs its commands.
#[derive(Clone, Copy, Debug, PartialEq, Eq, Structural)]
pub enum ShellCommandBackend {
    Classic,
    ZshFork,
}

/// The configured way of running the commands of the `shell_command` tool.
#[derive(Clone, Copy, Debug, PartialEq, Eq, Structural)]
pub enum ShellCommandBackendConfig {
    Classic,
    ZshFork,
}

/// The handler of the `shell_command` tool.
pub struct ShellCommandHandler {
    pub backend: ShellCommandBackend,
}

/// The tool that hooks are told of.
#[derive(Clone, Copy, Debug, PartialEq, Eq, Structural)]
pub enum HookToolName {
    Bash,
}

/// What hooks are told before a command runs.
pub struct PreToolUsePayload {
    pub tool_name: HookToolName,
    pub tool_input: serde_json::Value,
}

/// What hooks are told after a command has run.
pub struct PostToolUsePayload {
    pub tool_name: HookToolName,
    pub tool_use_id: String,
    pub tool_input: serde_json::Value,
    pub tool_response: serde_json::Value,
}

/// The input is a JSON object with the one member `command`, the given text.
pub open spec fn is_command_input(input: serde_json::Value, command: Seq<char>) -> bool {
    &&& forall|name: Seq<char>| #[trigger]
        json_members(input).contains_key(name) <==> name == "command"@
    &&& json_text(json_members(input)["command"@]) == Some(command)
}

/// The input is made of the words of a command line, as `join` joins them.
pub open spec fn is_joined_input<J: Fn(&Vec<String>) -> String>(
    input: serde_json::Value,
    words: Vec<String>,
    join: J,
) -> bool {
    exists|command: String| #[trigger]
        call_ensures(join, (&words,), command) && is_command_input(input, command@)
}

/// The command line that a payload of the `shell` tool holds, where `parsed` is
/// what its arguments read as.
pub open spec fn payload_argv(
    payload: ToolPayload,
    parsed: Option<&ShellToolCallParams>,
) -> Option<Vec<String>> {
    match payload {
        ToolPayload::Function { .. } => match parsed {
            Some(params) => Some(params.command),
            None => None,
        },
        ToolPayload::LocalShell { params } => Some(params.command),
        ToolPayload::Other => None,
    }
}

/// The command line that a payload of the `shell` tool holds, where `parsed` is
/// what its arguments read as.
pub fn shell_payload_argv<'a>(
    payload: &'a ToolPayload,
    parsed: Option<&'a ShellToolCallParams>,
) -> (argv: Option<&'a Vec<String>>)
    ensures
        match argv {
            Some(words) => payload_argv(*payload, parsed) == Some(*words),
            None => payload_argv(*payload, parsed) is None,
        },
{
    match payload {
        ToolPayload::Function { .. } => match parsed {
            Some(params) => Some(&params.command),
            None => None,
        },
        ToolPayload::LocalShell { params } => Some(&params.command),
        ToolPayload::Other => None,
    }
}

/// The command of a payload of the `shell` tool, as one line. `join` joins the
/// words of a command line.
pub fn shell_payload_command<J: Fn(&Vec<String>) -> String>(
    payload: &ToolPayload,
    parsed: Option<&ShellToolCallParams>,
    join: J,
) -> (command: Option<String>)
    requires
        forall|words: &Vec<String>| call_requires(join, (words,)),
    ensures
        match payload_argv(*payload, parsed) {
            Some(words) => command is Some && call_ensures(join, (&words,), command->0),
            None => command is None,
        },
{
    match shell_payload_argv(payload, parsed) {
        Some(words) => Some(join(words)),
        None => None,
    }
}

/// The command of a payload of the `shell_command` tool, where `parsed` is what
/// its arguments read as.
pub open spec fn payload_script(
    payload: ToolPayload,
    parsed: Option<&ShellCommandToolCallParams>,
) -> Option<String> {
    match (payload, parsed) {
        (ToolPayload::Function { .. }, Some(params)) => Some(params.command),
        _ => None,
    }
}

/// The command of a payload of the `shell_command` tool, where `parsed` is what
/// its arguments read as.
pub fn shell_command_payload_command(
    payload: &ToolPayload,
    parsed: Option<&ShellCommandToolCallParams>,
) -> (command: Option<String>)
    ensures
        command == payload_script(*payload, parsed),
{
    match payload {
        ToolPayload::Function { .. } => match parsed {
            Some(params) => Some(params.command.clone()),
            None => None,
        },
        _ => None,
    }
}

/// What hooks are told before `command` runs.
fn pre_payload(command: Option<String>) -> (payload: Option<PreToolUsePayload>)
    ensures
        match (command, payload) {
            (Some(c), Some(p)) => p.tool_name == HookToolName::Bash && is_command_input(
                p.tool_input,
                c@,
            ),
            (None, None) => true,
            _ => false,
        },
{
    match command {
        Some(command) => Some(
            PreToolUsePayload {
                tool_name: HookToolName::Bash,
                tool_input: json_object("command", command),
            },
        ),
        None => None,
    }
}

/// What hooks are told after `command` has run.
fn post_payload(
    call_id: &str,
    command: Option<String>,
    response: Option<serde_json::Value>,
) -> (payload: Option<PostToolUsePayload>)
    ensures
        match (response, command) {
            (Some(r), Some(c)) => {
                &&& payload is Some
                &&& payload->0.tool_name == HookToolName::Bash
                &&& payload->0.tool_use_id@ == call_id@
                &&& is_command_input(payload->0.tool_input, c@)
                &&& payload->0.tool_response == r
            },
            _ => payload is None,
        },
{
    match (response, command) {
        (Some(tool_response), Some(command)) => Some(
            PostToolUsePayload {
                tool_name: HookToolName::Bash,
                tool_use_id: call_id.to_owned(),
                tool_input: json_object("command", command),
                tool_response,
            },
        ),
        _ => None,
    }
}

impl ShellHandler {
    /// The tool is called as a function.
    pub fn kind(&self) -> (kind: ToolKind)
        ensures
            kind == ToolKind::Function,
    {
        ToolKind::Function
    }

    /// Whether the tool takes such a payload.
    pub fn matches_kind(&self, payload: &ToolPayload) -> (yes: bool)
        ensures
            yes == (payload is Function || payload is LocalShell),
    {
        matches!(payload, ToolPayload::Function { .. } | ToolPayload::LocalShell { .. })
    }

    /// Whether the call may change anything. Only a command that `known_safe`
    /// knows to be safe does not; a payload without a command is taken to.
    pub fn is_mutating<S: Fn(&Vec<String>) -> bool>(
        &self,
        payload: &ToolPayload,
        parsed: Option<&ShellToolCallParams>,
        known_safe: S,
    ) -> (mutating: bool)
        requires
            forall|words: &Vec<String>| call_requires(known_safe, (words,)),
        ensures
            match payload_argv(*payload, parsed) {
                Some(words) => call_ensures(known_safe, (&words,), !mutating),
                None => mutating,
            },
    {
        match shell_payload_argv(payload, parsed) {
            Some(words) => {
                !known_safe(words)
            },
            None => true,
        }
    }

    /// What hooks are told before the call, if it holds a command.
    pub fn pre_tool_use_payload<J: Fn(&Vec<String>) -> String>(
        &self,
        payload: &ToolPayload,
        parsed: Option<&ShellToolCallParams>,
        join: J,
    ) -> (told: Option<PreToolUsePayload>)
        requires
            forall|words: &Vec<String>| call_requires(join, (words,)),
        ensures
            match payload_argv(*payload, parsed) {
                Some(words) => told is Some && told->0.tool_name == HookToolName::Bash
                    && is_joined_input(told->0.tool_input, words, join),
                None => told is None,
            },
    {
        pre_payload(shell_payload_command(payload, parsed, join))
    }

    /// What hooks are told after the call, if it holds a command and there is a
    /// response to tell.
    pub fn post_tool_use_payload<J: Fn(&Vec<String>) -> String>(
        &self,
        call_id: &str,
        payload: &ToolPayload,
        parsed: Option<&ShellToolCallParams>,
        response: Option<serde_json::Value>,
        join: J,
    ) -> (told: Option<PostToolUsePayload>)
        requires
            forall|words: &Vec<String>| call_requires(join, (words,)),
        ensures
            match (response, payload_argv(*payload, parsed)) {
                (Some(r), Some(words)) => {
                    &&& told is Some
                    &&& told->0.tool_name == HookToolName::Bash
                    &&& told->0.tool_use_id@ == call_id@
                    &&& told->0.tool_response == r
                    &&& is_joined_input(told->0.tool_input, words, join)
                },
                _ => told is None,
            },
    {
        match response {
            Some(_) => post_payload(
                call_id,
                shell_payload_command(payload, parsed, join),
                response,
            ),
            None => None,
        }
    }

    /// The parameters of a command of the `shell` tool, which runs in `cwd`.
    pub fn to_exec_params(
        params: &ShellToolCallParams,
        cwd: String,
        settings: TurnExecSettings,
    ) -> (exec_params: ExecParams)
        ensures
            exec_params.command@ == params.command@,
            exec_params.cwd == cwd,
            exec_params.timeout_ms == params.timeout_ms,
            exec_params.sandbox_permissions == asked_or_default(params.sandbox_permissions),
            exec_params.justification == params.justification,
            takes_settings(exec_params, settings),
    {
        shell_exec_params(
            clone_strings(&params.command),
            cwd,
            params.timeout_ms,
            params.sandbox_permissions,
            params.justification.clone(),
            settings,
        )
    }
}

impl vstd::std_specs::convert::FromSpecImpl<ShellCommandBackendConfig> for ShellCommandHandler {
    open spec fn obeys_from_spec() -> bool {
        true
    }

    open spec fn from_spec(config: ShellCommandBackendConfig) -> ShellCommandHandler {
        ShellCommandHandler {
            backend: match config {
                ShellCommandBackendConfig::Classic => ShellCommandBackend::Classic,
                ShellCommandBackendConfig::ZshFork => ShellCommandBackend::ZshFork,
            },
        }
    }
}

impl From<ShellCommandBackendConfig> for ShellCommandHandler {
    fn from(config: ShellCommandBackendConfig) -> (handler: ShellCommandHandler) {
        let backend = match config {
            ShellCommandBackendConfig::Classic => ShellCommandBackend::Classic,
            ShellCommandBackendConfig::ZshFork => ShellCommandBackend::ZshFork,
        };
        ShellCommandHandler { backend }
    }
}

/// Whether a command runs in a login shell: as asked, or as the configuration
/// allows; there is no answer where it is asked for and not allowed.
pub open spec fn login_shell(login: Option<bool>, allowed: bool) -> Option<bool> {
    match login {
        Some(asked) => if asked && !allowed { None } else { Some(asked) },
        None => Some(allowed),
    }
}

/// The message where a login shell is asked for and not allowed.
pub open spec fn login_message() -> Seq<char> {
    "login shell is disabled by config; omit `login` or set it to false."@
}

impl ShellCommandHandler {
    /// The tool is called as a function.
    pub fn kind(&self) -> (kind: ToolKind)
        ensures
            kind == ToolKind::Function,
    {
        ToolKind::Function
    }

    /// Whether the tool takes such a payload.
    pub fn matches_kind(&self, payload: &ToolPayload) -> (yes: bool)
        ensures
            yes == (payload is Function),
    {
        matches!(payload, ToolPayload::Function { .. })
    }

    /// The runtime's way of running the tool's commands.
    pub fn shell_runtime_backend(&self) -> (backend: ShellRuntimeBackend)
        ensures
            backend == match self.backend {
                ShellCommandBackend::Classic => ShellRuntimeBackend::ShellCommandClassic,
                ShellCommandBackend::ZshFork => ShellRuntimeBackend::ShellCommandZshFork,
            },
    {
        match self.backend {
            ShellCommandBackend::Classic => ShellRuntimeBackend::ShellCommandClassic,
            ShellCommandBackend::ZshFork => ShellRuntimeBackend::ShellCommandZshFork,
        }
    }

    /// Whether a command runs in a login shell.
    pub fn resolve_use_login_shell(login: Option<bool>, allow_login_shell: bool) -> (use_login:
        Result<bool, FunctionCallError>)
        ensures
            match use_login {
                Ok(yes) => login_shell(login, allow_login_shell) == Some(yes),
                Err(error) => login_shell(login, allow_login_shell) is None && responds(
                    error,
                    login_message(),
                ),
            },
    {
        match login {
            Some(asked) => if asked && !allow_login_shell {
                Err(respond("login shell is disabled by config; omit `login` or set it to false."))
            } else {
                Ok(asked)
            },
            None => Ok(allow_login_shell),
        }
    }

    /// The command line that runs `command` in the given shell. `derive_exec_args` is how
    /// a shell runs a command.
    pub fn base_command<D: Fn(&str, &str, bool) -> Vec<String>>(
        derive_exec_args: D,
        shell: &str,
        command: &str,
        use_login_shell: bool,
    ) -> (argv: Vec<String>)
        requires
            call_requires(derive_exec_args, (shell, command, use_login_shell)),
        ensures
            call_ensures(derive_exec_args, (shell, command, use_login_shell), argv),
    {
        derive_exec_args(shell, command, use_login_shell)
    }

    /// The parameters of a command of the `shell_command` tool, which runs in
    /// `cwd` and in the given shell. `derive_exec_args` is how a shell runs a command.
    pub fn to_exec_params<D: Fn(&str, &str, bool) -> Vec<String>>(
        params: &ShellCommandToolCallParams,
        derive_exec_args: D,
        shell: &str,
        cwd: String,
        settings: TurnExecSettings,
        allow_login_shell: bool,
    ) -> (exec_params: Result<ExecParams, FunctionCallError>)
        requires
            forall|sh: &str, command: &str, login: bool|
                call_requires(derive_exec_args, (sh, command, login)),
        ensures
            match (login_shell(params.login, allow_login_shell), exec_params) {
                (Some(use_login), Ok(made)) => {
                    &&& runs_script(
                        derive_exec_args,
                        shell@,
                        params.command@,
                        use_login,
                        made.command,
                    )
                    &&& made.cwd == cwd
                    &&& made.timeout_ms == params.timeout_ms
                    &&& made.sandbox_permissions == asked_or_default(params.sandbox_permissions)
                    &&& made.justification == params.justification
                    &&& takes_settings(made, settings)
                },
                (None, Err(error)) => responds(error, login_message()),
                _ => false,
            },
    {
        let use_login = match Self::resolve_use_login_shell(params.login, allow_login_shell) {
            Ok(use_login) => use_login,
            Err(error) => return Err(error),
        };
        let command = Self::base_command(
            derive_exec_args,
            shell,
            params.command.as_str(),
            use_login,
        );
        assert(runs_script(derive_exec_args, shell@, params.command@, use_login, command));
        Ok(
            shell_exec_params(
                command,
                cwd,
                params.timeout_ms,
                params.sandbox_permissions,
                params.justification.clone(),
                settings,
            ),
        )
    }

    /// Whether the call may change anything. Only a command that `known_safe`
    /// knows to be safe, in the form in which the user's shell runs it, does not.
    pub fn is_mutating<D: Fn(&str, &str, bool) -> Vec<String>, S: Fn(&Vec<String>) -> bool>(
        &self,
        payload: &ToolPayload,
        parsed: Option<&ShellCommandToolCallParams>,
        allow_login_shell: bool,
        user_shell: &str,
        derive_exec_args: D,
        known_safe: S,
    ) -> (mutating: bool)
        requires
            forall|sh: &str, command: &str, login: bool|
                call_requires(derive_exec_args, (sh, command, login)),
            forall|words: &Vec<String>| call_requires(known_safe, (words,)),
        ensures
            match (payload, parsed) {
                (ToolPayload::Function { .. }, Some(params)) => match login_shell(
                    params.login,
                    allow_login_shell,
                ) {
                    Some(use_login) => script_is_safe(
                        derive_exec_args,
                        known_safe,
                        user_shell@,
                        params.command@,
                        use_login,
                        !mutating,
                    ),
                    None => mutating,
                },
                _ => mutating,
            },
    {
        match (payload, parsed) {
            (ToolPayload::Function { .. }, Some(params)) => {
                match Self::resolve_use_login_shell(params.login, allow_login_shell) {
                    Ok(use_login) => {
                        let argv = Self::base_command(
                            derive_exec_args,
                            user_shell,
                            params.command.as_str(),
                            use_login,
                        );
                        let safe = known_safe(&argv);
                        assert(runs_script(
                            derive_exec_args,
                            user_shell@,
                            params.command@,
                            use_login,
                            argv,
                        ));
                        assert(script_is_safe(
                            derive_exec_args,
                            known_safe,
                            user_shell@,
                            params.command@,
                            use_login,
                            safe,
                        ));
                        !safe
                    },
                    Err(_) => true,
                }
            },
            _ => true,
        }
    }

    /// What hooks are told before the call, if it holds a command.
    pub fn pre_tool_use_payload(
        &self,
        payload: &ToolPayload,
        parsed: Option<&ShellCommandToolCallParams>,
    ) -> (told: Option<PreToolUsePayload>)
        ensures
            match payload_script(*payload, parsed) {
                Some(command) => told is Some && told->0.tool_name == HookToolName::Bash
                    && is_command_input(told->0.tool_input, command@),
                None => told is None,
            },
    {
        pre_payload(shell_command_payload_command(payload, parsed))
    }

    /// What hooks are told after the call, if it holds a command and there is a
    /// response to tell.
    pub fn post_tool_use_payload(
        &self,
        call_id: &str,
        payload: &ToolPayload,
        parsed: Option<&ShellCommandToolCallParams>,
        response: Option<serde_json::Value>,
    ) -> (told: Option<PostToolUsePayload>)
        ensures
            match (response, payload_script(*payload, parsed)) {
                (Some(r), Some(command)) => {
                    &&& told is Some
                    &&& told->0.tool_name == HookToolName::Bash
                    &&& told->0.tool_use_id@ == call_id@
                    &&& told->0.tool_response == r
                    &&& is_command_input(told->0.tool_input, command@)
                },
                _ => told is None,
            },
    {
        post_payload(call_id, shell_command_payload_command(payload, parsed), response)
    }
}

/// `argv` is how the given shell runs the given script.
pub open spec fn runs_script<D: Fn(&str, &str, bool) -> Vec<String>>(
    derive_exec_args: D,
    shell: Seq<char>,
    script: Seq<char>,
    use_login: bool,
    argv: Vec<String>,
) -> bool {
    exists|sh: &str, command: &str|
        {
            &&& sh@ == shell
            &&& command@ == script
            &&& #[trigger] call_ensures(derive_exec_args, (sh, command, use_login), argv)
        }
}

/// `safe` says whether the script is known to be safe in the form in which the
/// given shell runs it.
pub open spec fn script_is_safe<
    D: Fn(&str, &str, bool) -> Vec<String>,
    S: Fn(&Vec<String>) -> bool,
>(
    derive_exec_args: D,
    known_safe: S,
    shell: Seq<char>,
    script: Seq<char>,
    use_login: bool,
    safe: bool,
) -> bool {
    exists|argv: Vec<String>|
        runs_script(derive_exec_args, shell, script, use_login, argv) && #[trigger] call_ensures(
            known_safe,
            (&argv,),
            safe,
        )
}

/// A command runs in a login shell only where the configuration allows it, and a
/// command that asks for no login shell never does.
pub proof fn law_login_shell_is_allowed(login: Option<bool>, allowed: bool)
    ensures
        login_shell(login, allowed) == Some(true) ==> allowed,
        login == Some(false) ==> login_shell(login, allowed) == Some(false),
{
}

/// Says of the command line of a payload of the `shell` tool that there is none.
pub open spec fn holds_no_argv(payload: ToolPayload, parsed: Option<&ShellToolCallParams>) -> bool {
    payload is Other || (payload is Function && parsed is None)
}

/// The words are those that the payload of the `shell` tool holds: those that a
/// function call's arguments read as, or those that came with a call of the local
/// shell.
pub open spec fn holds_argv(
    payload: ToolPayload,
    parsed: Option<&ShellToolCallParams>,
    words: Vec<String>,
) -> bool {
    match payload {
        ToolPayload::Function { .. } => parsed is Some && words == parsed->0.command,
        ToolPayload::LocalShell { params } => words == params.command,
        ToolPayload::Other => false,
    }
}

/// A payload of the `shell` tool holds the words of its command as they are, or no
/// command.
pub proof fn law_payload_holds_its_words(
    payload: ToolPayload,
    parsed: Option<&ShellToolCallParams>,
    argv: Option<&Vec<String>>,
)
    requires
        call_ensures(shell_payload_argv, (&payload, parsed), argv),
    ensures
        argv is None <==> holds_no_argv(payload, parsed),
        argv is Some ==> holds_argv(payload, parsed, *argv->0),
{
}

/// The command of a payload of the `shell` tool is its words, joined.
pub proof fn law_payload_command_is_its_joined_words<J: Fn(&Vec<String>) -> String>(
    payload: ToolPayload,
    parsed: Option<&ShellToolCallParams>,
    join: J,
    command: Option<String>,
)
    requires
        call_ensures(shell_payload_command::<J>, (&payload, parsed, join), command),
    ensures
        command is None <==> holds_no_argv(payload, parsed),
        command is Some ==> exists|words: Vec<String>|
            holds_argv(payload, parsed, words) && #[trigger] call_ensures(
                join,
                (&words,),
                command->0,
            ),
{
    if command is Some {
        let words = payload_argv(payload, parsed)->0;
        assert(holds_argv(payload, parsed, words));
        assert(call_ensures(join, (&words,), command->0));
    }
}

/// The command of a payload of the `shell_command` tool is what its arguments read
/// as. Only a function call holds one.
pub proof fn law_script_is_read_from_a_function_call(
    payload: ToolPayload,
    parsed: Option<&ShellCommandToolCallParams>,
    command: Option<String>,
)
    requires
        call_ensures(shell_command_payload_command, (&payload, parsed), command),
    ensures
        command is Some <==> payload is Function && parsed is Some,
        command is Some ==> command->0@ == parsed->0.command@,
{
}

/// A call of the `shell` tool counts as harmless exactly where it holds a command
/// that is known to be safe.
pub proof fn law_only_safe_commands_are_harmless<S: Fn(&Vec<String>) -> bool>(
    handler: ShellHandler,
    payload: ToolPayload,
    parsed: Option<&ShellToolCallParams>,
    known_safe: S,
    mutating: bool,
)
    requires
        call_ensures(
            ShellHandler::is_mutating::<S>,
            (&handler, &payload, parsed, known_safe),
            mutating,
        ),
    ensures
        holds_no_argv(payload, parsed) ==> mutating,
        !mutating ==> exists|words: Vec<String>|
            holds_argv(payload, parsed, words) && #[trigger] call_ensures(
                known_safe,
                (&words,),
                true,
            ),
        mutating && !holds_no_argv(payload, parsed) ==> exists|words: Vec<String>|
            holds_argv(payload, parsed, words) && #[trigger] call_ensures(
                known_safe,
                (&words,),
                false,
            ),
{
    if !holds_no_argv(payload, parsed) {
        let words = payload_argv(payload, parsed)->0;
        assert(holds_argv(payload, parsed, words));
        assert(call_ensures(known_safe, (&words,), !mutating));
    }
}

/// The input holds one member, `command`, and it is the given text.
pub open spec fn holds_only_the_command(input: serde_json::Value, command: Seq<char>) -> bool {
    &&& json_members(input).contains_key("command"@)
    &&& json_text(json_members(input)["command"@]) == Some(command)
    &&& forall|name: Seq<char>|
        name != "command"@ ==> !(#[trigger] json_members(input).contains_key(name))
}

/// Before and after a call of the `shell` tool, hooks are told the joined words of
/// its command, exactly where it holds one. After it, they are told so exactly
/// where there is a response too, with the response and the id of the call.
pub proof fn law_hooks_are_told_the_words<J: Fn(&Vec<String>) -> String>(
    handler: ShellHandler,
    call_id: &str,
    payload: ToolPayload,
    parsed: Option<&ShellToolCallParams>,
    response: Option<serde_json::Value>,
    join: J,
    before: Option<PreToolUsePayload>,
    after: Option<PostToolUsePayload>,
)
    requires
        call_ensures(
            ShellHandler::pre_tool_use_payload::<J>,
            (&handler, &payload, parsed, join),
            before,
        ),
        call_ensures(
            ShellHandler::post_tool_use_payload::<J>,
            (&handler, call_id, &payload, parsed, response, join),
            after,
        ),
    ensures
        before is None <==> holds_no_argv(payload, parsed),
        before is Some ==> before->0.tool_name is Bash && exists|words: Vec<String>, line: String|
            {
                &&& holds_argv(payload, parsed, words)
                &&& #[trigger] call_ensures(join, (&words,), line)
                &&& holds_only_the_command(before->0.tool_input, line@)
            },
        after is None <==> holds_no_argv(payload, parsed) || response is None,
        after is Some ==> {
            &&& after->0.tool_name is Bash
            &&& after->0.tool_use_id@ == call_id@
            &&& after->0.tool_response == response->0
        },
        after is Some ==> exists|words: Vec<String>, line: String|
            {
                &&& holds_argv(payload, parsed, words)
                &&& #[trigger] call_ensures(join, (&words,), line)
                &&& holds_only_the_command(after->0.tool_input, line@)
            },
{
    if !holds_no_argv(payload, parsed) {
        let words = payload_argv(payload, parsed)->0;
        assert(holds_argv(payload, parsed, words));
        assert(is_joined_input(before->0.tool_input, words, join));
        let line = choose|line: String| #[trigger]
            call_ensures(join, (&words,), line) && is_command_input(before->0.tool_input, line@);
        assert(call_ensures(join, (&words,), line));
        assert(holds_only_the_command(before->0.tool_input, line@));
        if after is Some {
            assert(is_joined_input(after->0.tool_input, words, join));
            let last = choose|last: String| #[trigger]
                call_ensures(join, (&words,), last) && is_command_input(after->0.tool_input, last@);
            assert(call_ensures(join, (&words,), last));
            assert(holds_only_the_command(after->0.tool_input, last@));
        }
    }
}

/// Before and after a call of the `shell_command` tool, hooks are told its command
/// as it was written, exactly where it is a function call that could be read. After
/// it, they are told so exactly where there is a response too, with the response
/// and the id of the call.
pub proof fn law_hooks_are_told_the_script(
    handler: ShellCommandHandler,
    call_id: &str,
    payload: ToolPayload,
    parsed: Option<&ShellCommandToolCallParams>,
    response: Option<serde_json::Value>,
    before: Option<PreToolUsePayload>,
    after: Option<PostToolUsePayload>,
)
    requires
        call_ensures(
            ShellCommandHandler::pre_tool_use_payload,
            (&handler, &payload, parsed),
            before,
        ),
        call_ensures(
            ShellCommandHandler::post_tool_use_payload,
            (&handler, call_id, &payload, parsed, response),
            after,
        ),
    ensures
        before is Some <==> payload is Function && parsed is Some,
        before is Some ==> before->0.tool_name is Bash && holds_only_the_command(
            before->0.tool_input,
            parsed->0.command@,
        ),
        after is Some <==> payload is Function && parsed is Some && response is Some,
        after is Some ==> {
            &&& after->0.tool_name is Bash
            &&& after->0.tool_use_id@ == call_id@
            &&& after->0.tool_response == response->0
            &&& holds_only_the_command(after->0.tool_input, parsed->0.command@)
        },
{
}

/// A login shell is refused exactly where it is asked for and not allowed. What is
/// asked for is done otherwise, and where nothing is asked for, what is allowed.
pub proof fn law_login_shell_is_as_asked_or_allowed(
    login: Option<bool>,
    allowed: bool,
    use_login: Result<bool, FunctionCallError>,
)
    requires
        call_ensures(ShellCommandHandler::resolve_use_login_shell, (login, allowed), use_login),
    ensures
        use_login is Err <==> login is Some && login->0 && !allowed,
        use_login is Err ==> responds(
            use_login->Err_0,
            "login shell is disabled by config; omit `login` or set it to false."@,
        ),
        use_login is Ok && login is Some ==> use_login->Ok_0 == login->0,
        use_login is Ok && login is None ==> use_login->Ok_0 == allowed,
{
}

/// Says how the given shell runs the script.
pub open spec fn is_run_by<D: Fn(&str, &str, bool) -> Vec<String>>(
    derive_exec_args: D,
    shell: Seq<char>,
    script: Seq<char>,
    login: bool,
    argv: Vec<String>,
) -> bool {
    exists|sh: &str, command: &str|
        sh@ == shell && command@ == script && #[trigger] call_ensures(
            derive_exec_args,
            (sh, command, login),
            argv,
        )
}

/// A command of the `shell` tool runs as it was asked for, in what the turn gives
/// to every command.
pub proof fn law_shell_call_runs_as_asked(
    params: ShellToolCallParams,
    cwd: String,
    settings: TurnExecSettings,
    made: ExecParams,
)
    requires
        call_ensures(ShellHandler::to_exec_params, (&params, cwd, settings), made),
    ensures
        made.command@ == params.command@,
        made.cwd@ == cwd@,
        made.timeout_ms == params.timeout_ms,
        params.sandbox_permissions is Some ==> made.sandbox_permissions
            == params.sandbox_permissions->0,
        params.sandbox_permissions is None ==> made.sandbox_permissions is UseDefault,
        made.justification == params.justification,
        made.env@ == settings.env@,
        made.network == settings.network,
        made.windows_sandbox_level == settings.windows_sandbox_level,
        made.windows_sandbox_private_desktop == settings.windows_sandbox_private_desktop,
        made.capture_policy is ShellTool,
        made.arg0 is None,
{
}

/// A command of the `shell_command` tool runs as the shell runs it, in a login
/// shell where that is asked for and allowed, or where nothing is asked for and it
/// is allowed.
pub proof fn law_shell_command_call_runs_as_asked<D: Fn(&str, &str, bool) -> Vec<String>>(
    params: ShellCommandToolCallParams,
    derive_exec_args: D,
    shell: &str,
    cwd: String,
    settings: TurnExecSettings,
    allowed: bool,
    exec_params: Result<ExecParams, FunctionCallError>,
)
    requires
        call_ensures(
            ShellCommandHandler::to_exec_params::<D>,
            (&params, derive_exec_args, shell, cwd, settings, allowed),
            exec_params,
        ),
    ensures
        exec_params is Err <==> params.login is Some && params.login->0 && !allowed,
        exec_params is Err ==> responds(
            exec_params->Err_0,
            "login shell is disabled by config; omit `login` or set it to false."@,
        ),
        exec_params is Ok ==> {
            let made = exec_params->Ok_0;
            &&& is_run_by(
                derive_exec_args,
                shell@,
                params.command@,
                if params.login is Some {
                    params.login->0
                } else {
                    allowed
                },
                made.command,
            )
            &&& made.cwd@ == cwd@
            &&& made.timeout_ms == params.timeout_ms
            &&& params.sandbox_permissions is Some ==> made.sandbox_permissions
                == params.sandbox_permissions->0
            &&& params.sandbox_permissions is None ==> made.sandbox_permissions is UseDefault
            &&& made.justification == params.justification
            &&& made.env@ == settings.env@
            &&& made.network == settings.network
            &&& made.windows_sandbox_level == settings.windows_sandbox_level
            &&& made.windows_sandbox_private_desktop == settings.windows_sandbox_private_desktop
            &&& made.capture_policy is ShellTool
            &&& made.arg0 is None
        },
{
    if exec_params is Ok {
        let login = login_shell(params.login, allowed)->0;
        let argv = exec_params->Ok_0.command;
        assert(runs_script(derive_exec_args, shell@, params.command@, login, argv));
        assert(is_run_by(derive_exec_args, shell@, params.command@, login, argv));
    }
}

/// A call of the `shell_command` tool counts as harmless only where it is a
/// function call that could be read, its login shell is allowed, and its command is
/// known to be safe in the form in which the user's shell runs it. It counts as
/// harmful only where one of these fails.
pub proof fn law_only_safe_scripts_are_harmless<
    D: Fn(&str, &str, bool) -> Vec<String>,
    S: Fn(&Vec<String>) -> bool,
>(
    handler: ShellCommandHandler,
    payload: ToolPayload,
    parsed: Option<&ShellCommandToolCallParams>,
    allowed: bool,
    user_shell: &str,
    derive_exec_args: D,
    known_safe: S,
    mutating: bool,
)
    requires
        call_ensures(
            ShellCommandHandler::is_mutating::<D, S>,
            (&handler, &payload, parsed, allowed, user_shell, derive_exec_args, known_safe),
            mutating,
        ),
    ensures
        ({
            let readable = payload is Function && parsed is Some && !(parsed->0.login is Some
                && parsed->0.login->0 && !allowed);
            let login = if parsed->0.login is Some {
                parsed->0.login->0
            } else {
                allowed
            };
            &&& !readable ==> mutating
            &&& !mutating ==> exists|argv: Vec<String>|
                is_run_by(derive_exec_args, user_shell@, parsed->0.command@, login, argv)
                    && #[trigger] call_ensures(known_safe, (&argv,), true)
            &&& readable && mutating ==> exists|argv: Vec<String>|
                is_run_by(derive_exec_args, user_shell@, parsed->0.command@, login, argv)
                    && #[trigger] call_ensures(known_safe, (&argv,), false)
        }),
{
    if payload is Function && parsed is Some {
        let params = parsed->0;
        if let Some(login) = login_shell(params.login, allowed) {
            let safe = !mutating;
            assert(script_is_safe(
                derive_exec_args,
                known_safe,
                user_shell@,
                params.command@,
                login,
                safe,
            ));
            let argv = choose|argv: Vec<String>|
                runs_script(derive_exec_args, user_shell@, params.command@, login, argv)
                    && #[trigger] call_ensures(known_safe, (&argv,), safe);
            assert(is_run_by(derive_exec_args, user_shell@, params.command@, login, argv));
            assert(call_ensures(known_safe, (&argv,), safe));
        }
    }
}

/// The `shell` tool takes function calls and calls of the local shell, and the
/// `shell_command` tool function calls alone.
pub proof fn law_tools_take_their_payloads(
    shell: ShellHandler,
    command: ShellCommandHandler,
    payload: ToolPayload,
    shell_takes: bool,
    command_takes: bool,
)
    requires
        call_ensures(ShellHandler::matches_kind, (&shell, &payload), shell_takes),
        call_ensures(ShellCommandHandler::matches_kind, (&command, &payload), command_takes),
    ensures
        shell_takes <==> !(payload is Other),
        command_takes <==> payload is Function,
{
}

/// The runtime runs a command of the `shell_command` tool in the way that is
/// configured.
pub proof fn law_configured_backend_is_used(
    config: ShellCommandBackendConfig,
    handler: ShellCommandHandler,
    backend: ShellRuntimeBackend,
)
    requires
        call_ensures(ShellCommandHandler::from, (config,), handler),
        call_ensures(ShellCommandHandler::shell_runtime_backend, (&handler,), backend),
    ensures
        config is Classic ==> backend is ShellCommandClassic,
        config is ZshFork ==> backend is ShellCommandZshFork,
{
}

/// Both tools are called as functions.
pub proof fn law_shell_tools_are_called_as_functions(
    shell: ShellHandler,
    command: ShellCommandHandler,
    shell_kind: ToolKind,
    command_kind: ToolKind,
)
    requires
        call_ensures(ShellHandler::kind, (&shell,), shell_kind),
        call_ensures(ShellCommandHandler::kind, (&command,), command_kind),
    ensures
        shell_kind is Function,
        command_kind is Function,
{
}

/// A command line is the one that the shell makes of the command, in a login shell
/// exactly where it is to.
pub proof fn law_shell_makes_the_command_line<D: Fn(&str, &str, bool) -> Vec<String>>(
    derive_exec_args: D,
    shell: &str,
    command: &str,
    use_login: bool,
    argv: Vec<String>,
)
    requires
        call_ensures(
            ShellCommandHandler::base_command::<D>,
            (derive_exec_args, shell, command, use_login),
            argv,
        ),
    ensures
        call_ensures(derive_exec_args, (shell, command, use_login), argv),
{
}

} // verus!
