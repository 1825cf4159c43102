//! One call of the `shell` or the `shell_command` tool, stage by stage, up to
//! the command that is to be run.

use crate::environment::{
    is_directory, is_first_with_id, is_made_of, is_unknown_id, lemma_made_of, nonempty,
    resolve_tool_environment, resolve_workdir_base_path, resolves_against, unknown_id_message,
    workdir_of, ResolvedCwd, ResolvedToolEnvironment, ToolEnvironmentArgs, TurnEnvironment,
};
use crate::error::{arguments_error, respond, responds, FunctionCallError};
use crate::exec::{
    asked_or_default, exec_server_env_config, is_policy_of, takes_settings, ExecServerEnvConfig,
    ShellEnvironmentPolicy, TurnExecSettings,
};
use crate::json::{json_error_text, json_members, json_parsed, json_text};
use crate::paths::joins_to;
use crate::profile::text_view;
use crate::shell::{
    is_run_by, login_message, login_shell, runs_script, ShellCommandBackend, ShellCommandHandler,
    ShellHandler,
};
use crate::shell_request::{EnvironmentRef, RunExecLikeArgs, ShellRuntimeBackend};
use crate::tool::{reads, ShellCommandToolCallParams, ShellToolCallParams, ToolPayload};
use vstd::prelude::*;

verus! {

/// The message for a call that has no environment to run in.
pub open spec fn unavailable_message() -> Seq<char> {
    "shell is unavailable in this session"@
}

/// `parsed` is what `parse` reads in the arguments when relative paths in them stand
/// against `directory`.
pub open spec fn reads_against<T, P: FnOnce(&str, &str) -> Result<T, String>>(
    parse: P,
    arguments: Seq<char>,
    directory: Seq<char>,
    parsed: Result<T, String>,
) -> bool {
    exists|a: &str, d: &str|
        a@ == arguments && d@ == directory && #[trigger] call_ensures(parse, (a, d), parsed)
}

/// The arguments of a call of the `shell` tool are to be read.
pub struct ShellArgumentsStage {
    pub arguments: String,
}

/// The arguments are to be read with their paths relative to `base`.
pub struct ShellBasedStage {
    pub arguments: String,
    pub base: ResolvedCwd,
}

/// The command of a call of the `shell` tool is known.
pub struct ShellReadyStage {
    pub params: ShellToolCallParams,
    /// The call was a function call. A call of the local shell brings no
    /// permissions and no rule of its own.
    pub from_function: bool,
}

/// The first stage of a call of the `shell` tool.
pub enum ShellStart {
    Arguments(ShellArgumentsStage),
    Ready(ShellReadyStage),
}

impl ShellHandler {
    /// Starts a call. A function call and a call of the local shell are
    /// accepted.
    pub fn begin(&self, payload: ToolPayload, tool_name: &str) -> (start: Result<
        ShellStart,
        FunctionCallError,
    >)
        ensures
            match (payload, start) {
                (ToolPayload::Function { arguments }, Ok(ShellStart::Arguments(next))) => {
                    next.arguments == arguments
                },
                (ToolPayload::LocalShell { params }, Ok(ShellStart::Ready(next))) => next.params
                    == params && !next.from_function,
                (ToolPayload::Other, Err(error)) => responds(
                    error,
                    "unsupported payload for shell handler: "@ + tool_name@,
                ),
                _ => false,
            },
    {
        match payload {
            ToolPayload::Function { arguments } => Ok(
                ShellStart::Arguments(ShellArgumentsStage { arguments }),
            ),
            ToolPayload::LocalShell { params } => Ok(
                ShellStart::Ready(ShellReadyStage { params, from_function: false }),
            ),
            ToolPayload::Other => Err(
                FunctionCallError::RespondToModel(
                    "unsupported payload for shell handler: ".to_owned().concat(tool_name),
                ),
            ),
        }
    }
}

impl ShellArgumentsStage {
    /// Finds the directory that the paths in the arguments are relative to.
    pub fn based(self, turn_cwd: &str) -> (stage: Result<ShellBasedStage, FunctionCallError>)
        ensures
            match (json_parsed(self.arguments@), stage) {
                (Ok(value), Ok(next)) => next.arguments == self.arguments && resolves_against(
                    next.base,
                    turn_cwd@,
                    workdir_of(value),
                ),
                (Err(reason), Err(error)) => responds(
                    error,
                    "failed to parse function arguments: "@ + json_error_text(reason),
                ),
                _ => false,
            },
    {
        match resolve_workdir_base_path(self.arguments.as_str(), turn_cwd) {
            Ok(base) => Ok(ShellBasedStage { arguments: self.arguments, base }),
            Err(error) => Err(error),
        }
    }
}

/// What comes of reading the arguments of a call of the `shell` tool.
pub open spec fn reads_shell(
    parsed: Result<ShellToolCallParams, String>,
    stage: Result<ShellReadyStage, FunctionCallError>,
) -> bool {
    match (parsed, stage) {
        (Ok(params), Ok(next)) => next.params == params && next.from_function,
        (Err(reason), Err(error)) => responds(
            error,
            "failed to parse function arguments: "@ + reason@,
        ),
        _ => false,
    }
}

/// The stage is what comes of reading the arguments with their paths against the
/// directory that was resolved.
pub open spec fn is_shell_read<
    K: Fn(&str, &str) -> String,
    P: FnOnce(&str, &str) -> Result<ShellToolCallParams, String>,
>(
    based: ShellBasedStage,
    join: K,
    parse: P,
    stage: Result<ShellReadyStage, FunctionCallError>,
) -> bool {
    exists|directory: String, parsed: Result<ShellToolCallParams, String>|
        {
            &&& #[trigger] is_directory(based.base, join, directory)
            &&& #[trigger] reads_against(parse, based.arguments@, directory@, parsed)
            &&& reads_shell(parsed, stage)
        }
}

impl ShellBasedStage {
    /// Reads the arguments. `join` joins a path to an absolute one, and `parse` reads
    /// a text whose relative paths stand against a directory.
    pub fn parsed<
        K: Fn(&str, &str) -> String,
        P: FnOnce(&str, &str) -> Result<ShellToolCallParams, String>,
    >(self, join: &K, parse: P) -> (stage: Result<ShellReadyStage, FunctionCallError>)
        requires
            forall|base: &str, path: &str| call_requires(*join, (base, path)),
            forall|arguments: &str, directory: &str| call_requires(parse, (arguments, directory)),
        ensures
            is_shell_read(self, *join, parse, stage),
    {
        let directory = self.base.directory(join);
        let parsed = parse(self.arguments.as_str(), directory.as_str());
        assert(reads_against(parse, self.arguments@, directory@, parsed));
        let ghost read = parsed;
        let stage = match parsed {
            Ok(params) => Ok(ShellReadyStage { params, from_function: true }),
            Err(reason) => Err(arguments_error(reason.as_str())),
        };
        assert(reads_shell(read, stage));
        stage
    }
}

impl ShellReadyStage {
    /// The command to run, in the turn's first environment and in the directory that
    /// `resolve_path` resolves for a working directory that may be given, against
    /// that of the turn. `join` joins the words of a command line.
    pub fn run_args<
        R: FnOnce(&str, &Option<String>) -> String,
        J: Fn(&Vec<String>) -> String,
    >(
        self,
        tool_name: String,
        call_id: String,
        environments: &Vec<TurnEnvironment>,
        turn_cwd: &str,
        settings: TurnExecSettings,
        resolve_path: R,
        join: J,
    ) -> (args: Result<RunExecLikeArgs, FunctionCallError>)
        requires
            call_requires(resolve_path, (turn_cwd, &self.params.workdir)),
            forall|words: &Vec<String>| call_requires(join, (words,)),
        ensures
            match args {
                Ok(run) => {
                    &&& environments@.len() > 0
                    &&& run.environment == (EnvironmentRef {
                        index: 0,
                        is_remote: environments@[0].is_remote,
                    })
                    &&& run.tool_name == tool_name
                    &&& run.call_id == call_id
                    &&& run.exec_params.command@ == self.params.command@
                    &&& call_ensures(
                        resolve_path,
                        (turn_cwd, &self.params.workdir),
                        run.exec_params.cwd,
                    )
                    &&& run.exec_params.timeout_ms == self.params.timeout_ms
                    &&& run.exec_params.sandbox_permissions == asked_or_default(
                        self.params.sandbox_permissions,
                    )
                    &&& run.exec_params.justification == self.params.justification
                    &&& takes_settings(run.exec_params, settings)
                    &&& call_ensures(join, (&self.params.command,), run.hook_command)
                    &&& !run.remote_execution_enabled
                    &&& run.exec_server_env_config is None
                    &&& run.additional_permissions == if self.from_function {
                        self.params.additional_permissions
                    } else {
                        None
                    }
                    &&& run.prefix_rule == if self.from_function {
                        self.params.prefix_rule
                    } else {
                        None
                    }
                    &&& !run.freeform
                    &&& run.shell_runtime_backend == ShellRuntimeBackend::Generic
                },
                Err(error) => environments@.len() == 0 && responds(error, unavailable_message()),
            },
    {
        let cwd = resolve_path(turn_cwd, &self.params.workdir);
        let exec_params = ShellHandler::to_exec_params(&self.params, cwd, settings);
        let hook_command = join(&self.params.command);
        if environments.len() == 0 {
            return Err(respond("shell is unavailable in this session"));
        }
        let environment = EnvironmentRef { index: 0, is_remote: environments[0].is_remote };
        let (additional_permissions, prefix_rule) = if self.from_function {
            (self.params.additional_permissions, self.params.prefix_rule)
        } else {
            (None, None)
        };
        Ok(
            RunExecLikeArgs {
                tool_name,
                exec_params,
                hook_command,
                environment,
                remote_execution_enabled: false,
                exec_server_env_config: None,
                additional_permissions,
                prefix_rule,
                call_id,
                freeform: false,
                shell_runtime_backend: ShellRuntimeBackend::Generic,
            },
        )
    }
}

/// The arguments that choose the environment of a call of the `shell_command`
/// tool are to be read.
pub struct CommandArgumentsStage {
    pub arguments: String,
}

/// The remaining arguments are to be read with their paths relative to the
/// working directory.
pub struct CommandPlacedStage {
    pub arguments: String,
    pub place: ResolvedToolEnvironment,
    pub is_remote: bool,
    /// The shell of the environment.
    pub shell: String,
}

/// The command of a call of the `shell_command` tool is known.
pub struct CommandReadyStage {
    pub place: ResolvedToolEnvironment,
    pub is_remote: bool,
    /// The shell of the environment.
    pub shell: String,
    /// The working directory.
    pub cwd: String,
    pub params: ShellCommandToolCallParams,
}

/// The call is placed as its arguments choose: in the environment with the given id,
/// or the turn's first, and in the given working directory against that of the
/// environment.
pub open spec fn is_placed(
    environments: Seq<TurnEnvironment>,
    choice: ToolEnvironmentArgs,
    stage: CommandPlacedStage,
) -> bool {
    let at = stage.place.environment as int;
    &&& at < environments.len()
    &&& match text_view(choice.environment_id) {
        Some(id) => is_first_with_id(environments, id, at),
        None => at == 0,
    }
    &&& stage.is_remote == environments[at].is_remote
    &&& stage.shell@ == environments[at].shell@
    &&& resolves_against(stage.place.cwd, environments[at].cwd@, text_view(choice.workdir))
}

impl ShellCommandHandler {
    /// Starts a call. Only a function call is accepted.
    pub fn begin(&self, payload: ToolPayload, tool_name: &str) -> (start: Result<
        CommandArgumentsStage,
        FunctionCallError,
    >)
        ensures
            match (payload, start) {
                (ToolPayload::Function { arguments }, Ok(next)) => next.arguments == arguments,
                (ToolPayload::Function { .. }, Err(_)) => false,
                (_, Ok(_)) => false,
                (_, Err(error)) => responds(
                    error,
                    "unsupported payload for shell_command handler: "@ + tool_name@,
                ),
            },
    {
        match payload {
            ToolPayload::Function { arguments } => Ok(CommandArgumentsStage { arguments }),
            _ => Err(
                FunctionCallError::RespondToModel(
                    "unsupported payload for shell_command handler: ".to_owned().concat(tool_name),
                ),
            ),
        }
    }
}

/// What comes of reading the arguments that choose the environment.
pub open spec fn places(
    arguments: String,
    environments: Seq<TurnEnvironment>,
    parsed: Result<ToolEnvironmentArgs, String>,
    stage: Result<CommandPlacedStage, FunctionCallError>,
) -> bool {
    match (parsed, stage) {
        (Err(reason), Err(error)) => responds(
            error,
            "failed to parse function arguments: "@ + reason@,
        ),
        (Err(_), Ok(_)) => false,
        (Ok(choice), Ok(next)) => next.arguments == arguments && is_placed(
            environments,
            choice,
            next,
        ),
        (Ok(choice), Err(error)) => match text_view(choice.environment_id) {
            Some(id) => is_unknown_id(environments, id) && responds(error, unknown_id_message(id)),
            None => environments.len() == 0 && responds(error, unavailable_message()),
        },
    }
}

/// The stage is what comes of reading the arguments that choose the environment with
/// `parse`.
pub open spec fn is_command_placed<P: FnOnce(&str) -> Result<ToolEnvironmentArgs, String>>(
    arguments: String,
    environments: Seq<TurnEnvironment>,
    parse: P,
    stage: Result<CommandPlacedStage, FunctionCallError>,
) -> bool {
    exists|parsed: Result<ToolEnvironmentArgs, String>| #[trigger]
        reads(parse, arguments@, parsed) && places(arguments, environments, parsed, stage)
}

impl CommandArgumentsStage {
    /// Reads the arguments that choose the environment with `parse`, and chooses among
    /// the turn's environments. The working directory is relative to that of the
    /// chosen environment.
    pub fn placed<P: FnOnce(&str) -> Result<ToolEnvironmentArgs, String>>(
        self,
        environments: &Vec<TurnEnvironment>,
        parse: P,
    ) -> (stage: Result<CommandPlacedStage, FunctionCallError>)
        requires
            forall|arguments: &str| call_requires(parse, (arguments,)),
        ensures
            is_command_placed(self.arguments, environments@, parse, stage),
    {
        let parsed = parse(self.arguments.as_str());
        assert(reads(parse, self.arguments@, parsed));
        self.chosen(environments, parsed)
    }

    /// Takes the arguments that choose the environment, or the reason why they could
    /// not be read, and chooses among the turn's environments.
    pub fn chosen(
        self,
        environments: &Vec<TurnEnvironment>,
        parsed: Result<ToolEnvironmentArgs, String>,
    ) -> (stage: Result<CommandPlacedStage, FunctionCallError>)
        ensures
            places(self.arguments, environments@, parsed, stage),
    {
        match parsed {
            Err(reason) => Err(arguments_error(reason.as_str())),
            Ok(choice) => match resolve_tool_environment(environments, &choice) {
                Err(error) => Err(error),
                Ok(None) => Err(respond("shell is unavailable in this session")),
                Ok(Some(place)) => {
                    let is_remote = environments[place.environment].is_remote;
                    let shell = environments[place.environment].shell.clone();
                    Ok(CommandPlacedStage { arguments: self.arguments, place, is_remote, shell })
                },
            },
        }
    }
}

/// What comes of reading the arguments of a call of the `shell_command` tool.
pub open spec fn reads_command(
    placed: CommandPlacedStage,
    directory: String,
    parsed: Result<ShellCommandToolCallParams, String>,
    stage: Result<CommandReadyStage, FunctionCallError>,
) -> bool {
    match (parsed, stage) {
        (Ok(params), Ok(next)) => {
            &&& next.params == params
            &&& next.place == placed.place
            &&& next.is_remote == placed.is_remote
            &&& next.shell == placed.shell
            &&& next.cwd == directory
        },
        (Err(reason), Err(error)) => responds(
            error,
            "failed to parse function arguments: "@ + reason@,
        ),
        _ => false,
    }
}

/// The stage is what comes of reading the arguments with their paths against the
/// working directory.
pub open spec fn is_command_read<
    K: Fn(&str, &str) -> String,
    P: FnOnce(&str, &str) -> Result<ShellCommandToolCallParams, String>,
>(
    placed: CommandPlacedStage,
    join: K,
    parse: P,
    stage: Result<CommandReadyStage, FunctionCallError>,
) -> bool {
    exists|directory: String, parsed: Result<ShellCommandToolCallParams, String>|
        {
            &&& #[trigger] is_directory(placed.place.cwd, join, directory)
            &&& #[trigger] reads_against(parse, placed.arguments@, directory@, parsed)
            &&& reads_command(placed, directory, parsed, stage)
        }
}

impl CommandPlacedStage {
    /// Reads the arguments. `join` joins a path to an absolute one, and `parse` reads
    /// a text whose relative paths stand against a directory.
    pub fn parsed<
        K: Fn(&str, &str) -> String,
        P: FnOnce(&str, &str) -> Result<ShellCommandToolCallParams, String>,
    >(self, join: &K, parse: P) -> (stage: Result<CommandReadyStage, FunctionCallError>)
        requires
            forall|base: &str, path: &str| call_requires(*join, (base, path)),
            forall|arguments: &str, directory: &str| call_requires(parse, (arguments, directory)),
        ensures
            is_command_read(self, *join, parse, stage),
    {
        let directory = self.place.cwd.directory(join);
        let parsed = parse(self.arguments.as_str(), directory.as_str());
        assert(reads_against(parse, self.arguments@, directory@, parsed));
        let ghost read = parsed;
        let ghost made = directory;
        let stage = match parsed {
            Ok(params) => Ok(
                CommandReadyStage {
                    place: self.place,
                    is_remote: self.is_remote,
                    shell: self.shell,
                    cwd: directory,
                    params,
                },
            ),
            Err(reason) => Err(arguments_error(reason.as_str())),
        };
        assert(is_directory(self.place.cwd, *join, made));
        assert(reads_command(self, made, read, stage));
        stage
    }
}

/// A remote environment is told how to make up the command's environment from
/// the policy; a local one is not.
pub open spec fn configures_env(
    config: Option<ExecServerEnvConfig>,
    is_remote: bool,
    policy: ShellEnvironmentPolicy,
    env: Map<Seq<char>, Seq<char>>,
) -> bool {
    match config {
        Some(c) => is_remote && is_policy_of(c.policy, policy) && c.local_policy_env@ == env,
        None => !is_remote,
    }
}

impl CommandReadyStage {
    /// The command to run, in the chosen environment, its shell and its working
    /// directory. `derive_exec_args` is how a shell runs a command.
    pub fn run_args<D: Fn(&str, &str, bool) -> Vec<String>>(
        self,
        handler: &ShellCommandHandler,
        tool_name: String,
        call_id: String,
        settings: TurnExecSettings,
        policy: &ShellEnvironmentPolicy,
        allow_login_shell: bool,
        derive_exec_args: D,
    ) -> (args: Result<RunExecLikeArgs, FunctionCallError>)
        requires
            forall|shell: &str, command: &str, login: bool|
                call_requires(derive_exec_args, (shell, command, login)),
        ensures
            match (login_shell(self.params.login, allow_login_shell), args) {
                (Some(use_login), Ok(run)) => {
                    &&& run.environment == (EnvironmentRef {
                        index: self.place.environment,
                        is_remote: self.is_remote,
                    })
                    &&& run.tool_name == tool_name
                    &&& run.call_id == call_id
                    &&& runs_script(
                        derive_exec_args,
                        self.shell@,
                        self.params.command@,
                        use_login,
                        run.exec_params.command,
                    )
                    &&& run.exec_params.cwd == self.cwd
                    &&& run.exec_params.timeout_ms == self.params.timeout_ms
                    &&& run.exec_params.sandbox_permissions == asked_or_default(
                        self.params.sandbox_permissions,
                    )
                    &&& run.exec_params.justification == self.params.justification
                    &&& takes_settings(run.exec_params, settings)
                    &&& run.hook_command == self.params.command
                    &&& run.remote_execution_enabled
                    &&& configures_env(
                        run.exec_server_env_config,
                        run.environment.is_remote,
                        *policy,
                        settings.env@,
                    )
                    &&& run.additional_permissions == self.params.additional_permissions
                    &&& run.prefix_rule == self.params.prefix_rule
                    &&& run.freeform
                    &&& run.shell_runtime_backend == match handler.backend {
                        ShellCommandBackend::Classic => ShellRuntimeBackend::ShellCommandClassic,
                        ShellCommandBackend::ZshFork => ShellRuntimeBackend::ShellCommandZshFork,
                    }
                },
                (None, Err(error)) => responds(error, login_message()),
                _ => false,
            },
    {
        let index = self.place.environment;
        let is_remote = self.is_remote;
        let exec_params = match ShellCommandHandler::to_exec_params(
            &self.params,
            derive_exec_args,
            self.shell.as_str(),
            self.cwd,
            settings,
            allow_login_shell,
        ) {
            Ok(exec_params) => exec_params,
            Err(error) => return Err(error),
        };
        let env_config = if is_remote {
            Some(exec_server_env_config(policy, &exec_params.env))
        } else {
            None
        };
        Ok(
            RunExecLikeArgs {
                tool_name,
                exec_params,
                hook_command: self.params.command,
                environment: EnvironmentRef { index, is_remote },
                remote_execution_enabled: true,
                exec_server_env_config: env_config,
                additional_permissions: self.params.additional_permissions,
                prefix_rule: self.params.prefix_rule,
                call_id,
                freeform: true,
                shell_runtime_backend: handler.shell_runtime_backend(),
            },
        )
    }
}

/// `made` is the given working directory against `base`, or `base` itself where none is
/// given.
pub open spec fn is_against<K: Fn(&str, &str) -> String>(
    base: Seq<char>,
    workdir: Option<Seq<char>>,
    join: K,
    made: String,
) -> bool {
    match nonempty(workdir) {
        Some(path) => joins_to(join, base, path, made),
        None => made@ == base,
    }
}

/// A command runs in the environment that its call chooses, in the shell of that
/// environment, and in the directory that its call names against that of the
/// environment. The relative paths in its arguments stand against that same directory.
pub proof fn law_command_runs_where_its_call_is_placed<
    K: Fn(&str, &str) -> String,
    P: FnOnce(&str, &str) -> Result<ShellCommandToolCallParams, String>,
    D: Fn(&str, &str, bool) -> Vec<String>,
>(
    environments: Seq<TurnEnvironment>,
    choice: ToolEnvironmentArgs,
    placed: CommandPlacedStage,
    join: K,
    parse: P,
    derive_exec_args: D,
    ready: CommandReadyStage,
    use_login: bool,
    run: RunExecLikeArgs,
)
    requires
        is_placed(environments, choice, placed),
        is_command_read(placed, join, parse, Ok(ready)),
        run.environment == (EnvironmentRef {
            index: ready.place.environment,
            is_remote: ready.is_remote,
        }),
        run.exec_params.cwd == ready.cwd,
        runs_script(
            derive_exec_args,
            ready.shell@,
            ready.params.command@,
            use_login,
            run.exec_params.command,
        ),
    ensures
        ({
            let at = run.environment.index as int;
            &&& at < environments.len()
            &&& match text_view(choice.environment_id) {
                Some(id) => is_first_with_id(environments, id, at),
                None => at == 0,
            }
            &&& run.environment.is_remote == environments[at].is_remote
            &&& is_against(
                environments[at].cwd@,
                text_view(choice.workdir),
                join,
                run.exec_params.cwd,
            )
            &&& runs_script(
                derive_exec_args,
                environments[at].shell@,
                ready.params.command@,
                use_login,
                run.exec_params.command,
            )
            &&& reads_against(
                parse,
                placed.arguments@,
                run.exec_params.cwd@,
                Ok(ready.params),
            )
        }),
{
}

/// A call of the `shell` tool is taken up as it came: a function call with its
/// arguments, and a call of the local shell with its command, which brings nothing
/// of its own. Anything else is refused by name.
pub proof fn law_shell_call_is_taken_up_as_it_came(
    handler: ShellHandler,
    payload: ToolPayload,
    tool_name: &str,
    start: Result<ShellStart, FunctionCallError>,
)
    requires
        call_ensures(ShellHandler::begin, (&handler, payload, tool_name), start),
    ensures
        start is Err <==> payload is Other,
        start is Err ==> responds(
            start->Err_0,
            "unsupported payload for shell handler: "@ + tool_name@,
        ),
        match payload {
            ToolPayload::Function { arguments } => match start {
                Ok(ShellStart::Arguments(stage)) => stage.arguments@ == arguments@,
                _ => false,
            },
            ToolPayload::LocalShell { params } => match start {
                Ok(ShellStart::Ready(stage)) => stage.params == params && !stage.from_function,
                _ => false,
            },
            ToolPayload::Other => true,
        },
{
}

/// The arguments of a call of the `shell` tool stand against the directory that
/// they name, against that of the turn.
pub proof fn law_shell_arguments_stand_against_their_directory(
    stage: ShellArgumentsStage,
    turn_cwd: &str,
    based: Result<ShellBasedStage, FunctionCallError>,
)
    requires
        call_ensures(ShellArgumentsStage::based, (stage, turn_cwd), based),
    ensures
        based is Ok <==> json_parsed(stage.arguments@) is Ok,
        based is Err ==> responds(
            based->Err_0,
            "failed to parse function arguments: "@ + json_error_text(
                json_parsed(stage.arguments@)->Err_0,
            ),
        ),
        based is Ok ==> {
            let members = json_members(json_parsed(stage.arguments@)->Ok_0);
            let base = based->Ok_0.base;
            let named = members.contains_key("workdir"@) && json_text(members["workdir"@]) is Some
                && json_text(members["workdir"@])->0.len() > 0;
            &&& based->Ok_0.arguments@ == stage.arguments@
            &&& base.base@ == turn_cwd@
            &&& base.workdir is Some <==> named
            &&& named ==> Some(base.workdir->0@) == json_text(members["workdir"@])
        },
{
}

/// The arguments of a call of the `shell` tool are read once, against the directory
/// that was resolved. What they read as is the command of a function call; why they
/// could not be read is an error.
pub proof fn law_shell_arguments_are_read_against_it<
    K: Fn(&str, &str) -> String,
    P: FnOnce(&str, &str) -> Result<ShellToolCallParams, String>,
>(
    based: ShellBasedStage,
    join: K,
    parse: P,
    stage: Result<ShellReadyStage, FunctionCallError>,
)
    requires
        call_ensures(ShellBasedStage::parsed::<K, P>, (based, &join, parse), stage),
    ensures
        exists|a: &str, d: &str, parsed: Result<ShellToolCallParams, String>|
            {
                &&& a@ == based.arguments@
                &&& is_made_of(based.base, join, d@)
                &&& #[trigger] call_ensures(parse, (a, d), parsed)
                &&& match parsed {
                    Ok(params) => stage is Ok && stage->Ok_0.params == params
                        && stage->Ok_0.from_function,
                    Err(reason) => stage is Err && responds(
                        stage->Err_0,
                        "failed to parse function arguments: "@ + reason@,
                    ),
                }
            },
{
    let (directory, parsed) = choose|
        directory: String,
        parsed: Result<ShellToolCallParams, String>,
    |
        {
            &&& #[trigger] is_directory(based.base, join, directory)
            &&& #[trigger] reads_against(parse, based.arguments@, directory@, parsed)
            &&& reads_shell(parsed, stage)
        };
    lemma_made_of(based.base, join, directory);
    let (a, d) = choose|a: &str, d: &str|
        a@ == based.arguments@ && d@ == directory@ && #[trigger] call_ensures(
            parse,
            (a, d),
            parsed,
        );
    assert(call_ensures(parse, (a, d), parsed));
}

/// A command of the `shell` tool runs in the turn's first environment, and is
/// refused exactly where there is none. It never runs remotely by an exec server,
/// and brings permissions and a rule of its own only from a function call.
pub proof fn law_shell_call_runs_in_the_first_environment<
    R: FnOnce(&str, &Option<String>) -> String,
    J: Fn(&Vec<String>) -> String,
>(
    ready: ShellReadyStage,
    tool_name: String,
    call_id: String,
    environments: Vec<TurnEnvironment>,
    turn_cwd: &str,
    settings: TurnExecSettings,
    resolve_path: R,
    join: J,
    args: Result<RunExecLikeArgs, FunctionCallError>,
)
    requires
        call_ensures(
            ShellReadyStage::run_args::<R, J>,
            (
                ready,
                tool_name,
                call_id,
                &environments,
                turn_cwd,
                settings,
                resolve_path,
                join,
            ),
            args,
        ),
    ensures
        args is Err <==> environments@.len() == 0,
        args is Err ==> responds(args->Err_0, "shell is unavailable in this session"@),
        args is Ok ==> {
            let run = args->Ok_0;
            &&& run.environment.index == 0
            &&& run.environment.is_remote == environments@[0].is_remote
            &&& run.tool_name@ == tool_name@
            &&& run.call_id@ == call_id@
            &&& run.exec_params.command@ == ready.params.command@
            &&& call_ensures(
                resolve_path,
                (turn_cwd, &ready.params.workdir),
                run.exec_params.cwd,
            )
            &&& run.exec_params.timeout_ms == ready.params.timeout_ms
            &&& run.exec_params.justification == ready.params.justification
            &&& ready.params.sandbox_permissions is Some ==> run.exec_params.sandbox_permissions
                == ready.params.sandbox_permissions->0
            &&& ready.params.sandbox_permissions is None
                ==> run.exec_params.sandbox_permissions is UseDefault
            &&& run.exec_params.env@ == settings.env@
            &&& run.exec_params.network == settings.network
            &&& run.exec_params.windows_sandbox_level == settings.windows_sandbox_level
            &&& run.exec_params.windows_sandbox_private_desktop
                == settings.windows_sandbox_private_desktop
            &&& run.exec_params.capture_policy is ShellTool
            &&& run.exec_params.arg0 is None
            &&& call_ensures(join, (&ready.params.command,), run.hook_command)
            &&& !run.remote_execution_enabled
            &&& run.exec_server_env_config is None
            &&& ready.from_function ==> run.additional_permissions
                == ready.params.additional_permissions && run.prefix_rule
                == ready.params.prefix_rule
            &&& !ready.from_function ==> run.additional_permissions is None
                && run.prefix_rule is None
            &&& !run.freeform
            &&& run.shell_runtime_backend is Generic
        },
{
}

/// A call of the `shell_command` tool is taken up with its arguments where it is a
/// function call, and refused by name otherwise.
pub proof fn law_only_a_function_call_is_a_shell_command(
    handler: ShellCommandHandler,
    payload: ToolPayload,
    tool_name: &str,
    start: Result<CommandArgumentsStage, FunctionCallError>,
)
    requires
        call_ensures(ShellCommandHandler::begin, (&handler, payload, tool_name), start),
    ensures
        start is Ok <==> payload is Function,
        start is Ok ==> payload == (ToolPayload::Function { arguments: start->Ok_0.arguments }),
        start is Err ==> responds(
            start->Err_0,
            "unsupported payload for shell_command handler: "@ + tool_name@,
        ),
{
}

/// A call of the `shell_command` tool is placed in the environment that it names,
/// or in the turn's first where it names none, with that one's shell and directory.
/// It is refused exactly where its arguments could not be read, it names an id that
/// no environment has, or there is no environment at all.
pub proof fn law_command_is_placed_in_the_named_environment(
    stage: CommandArgumentsStage,
    environments: Vec<TurnEnvironment>,
    parsed: Result<ToolEnvironmentArgs, String>,
    placed: Result<CommandPlacedStage, FunctionCallError>,
)
    requires
        call_ensures(CommandArgumentsStage::chosen, (stage, &environments, parsed), placed),
    ensures
        parsed is Err ==> placed is Err && responds(
            placed->Err_0,
            "failed to parse function arguments: "@ + parsed->Err_0@,
        ),
        parsed is Ok ==> {
            let id = parsed->Ok_0.environment_id;
            let workdir = parsed->Ok_0.workdir;
            &&& id is None ==> (placed is Err <==> environments@.len() == 0)
            &&& id is Some ==> (placed is Ok <==> exists|k: int|
                0 <= k < environments@.len() && (#[trigger] environments@[k]).environment_id@
                    == id->0@)
            &&& placed is Err ==> responds(
                placed->Err_0,
                if id is Some {
                    "unknown turn environment id `"@ + id->0@ + "`"@
                } else {
                    "shell is unavailable in this session"@
                },
            )
            &&& placed is Ok ==> {
                let at = placed->Ok_0.place.environment as int;
                let cwd = placed->Ok_0.place.cwd;
                &&& at < environments@.len()
                &&& id is None ==> at == 0
                &&& id is Some ==> environments@[at].environment_id@ == id->0@ && forall|k: int|
                    0 <= k < at ==> (#[trigger] environments@[k]).environment_id@ != id->0@
                &&& placed->Ok_0.arguments@ == stage.arguments@
                &&& placed->Ok_0.is_remote == environments@[at].is_remote
                &&& placed->Ok_0.shell@ == environments@[at].shell@
                &&& cwd.base@ == environments@[at].cwd@
                &&& cwd.workdir is Some <==> workdir is Some && workdir->0@.len() > 0
                &&& cwd.workdir is Some ==> cwd.workdir->0@ == workdir->0@
            }
        },
{
    if parsed is Ok && parsed->Ok_0.environment_id is Some && placed is Ok {
        let at = placed->Ok_0.place.environment as int;
        assert(environments@[at].environment_id@ == parsed->Ok_0.environment_id->0@);
    }
}

/// The arguments that choose the environment are read once, in the text of the
/// call, and the call is placed by what they read as.
pub proof fn law_command_is_placed_by_its_arguments<
    P: FnOnce(&str) -> Result<ToolEnvironmentArgs, String>,
>(
    stage: CommandArgumentsStage,
    environments: Vec<TurnEnvironment>,
    parse: P,
    placed: Result<CommandPlacedStage, FunctionCallError>,
)
    requires
        call_ensures(CommandArgumentsStage::placed::<P>, (stage, &environments, parse), placed),
    ensures
        exists|a: &str, parsed: Result<ToolEnvironmentArgs, String>|
            {
                &&& a@ == stage.arguments@
                &&& #[trigger] call_ensures(parse, (a,), parsed)
                &&& places(stage.arguments, environments@, parsed, placed)
            },
{
    let parsed = choose|parsed: Result<ToolEnvironmentArgs, String>| #[trigger]
        reads(parse, stage.arguments@, parsed) && places(
            stage.arguments,
            environments@,
            parsed,
            placed,
        );
    let a = choose|a: &str| a@ == stage.arguments@ && #[trigger] call_ensures(
        parse,
        (a,),
        parsed,
    );
    assert(call_ensures(parse, (a,), parsed));
}

/// The remaining arguments of a call of the `shell_command` tool are read once,
/// against the directory in which it was placed, and that is where it runs.
pub proof fn law_command_arguments_are_read_where_it_runs<
    K: Fn(&str, &str) -> String,
    P: FnOnce(&str, &str) -> Result<ShellCommandToolCallParams, String>,
>(
    placed: CommandPlacedStage,
    join: K,
    parse: P,
    stage: Result<CommandReadyStage, FunctionCallError>,
)
    requires
        call_ensures(CommandPlacedStage::parsed::<K, P>, (placed, &join, parse), stage),
    ensures
        exists|a: &str, d: &str, parsed: Result<ShellCommandToolCallParams, String>|
            {
                &&& a@ == placed.arguments@
                &&& is_made_of(placed.place.cwd, join, d@)
                &&& #[trigger] call_ensures(parse, (a, d), parsed)
                &&& match parsed {
                    Ok(params) => {
                        &&& stage is Ok
                        &&& stage->Ok_0.params == params
                        &&& stage->Ok_0.place == placed.place
                        &&& stage->Ok_0.is_remote == placed.is_remote
                        &&& stage->Ok_0.shell@ == placed.shell@
                        &&& stage->Ok_0.cwd@ == d@
                    },
                    Err(reason) => stage is Err && responds(
                        stage->Err_0,
                        "failed to parse function arguments: "@ + reason@,
                    ),
                }
            },
{
    let (directory, parsed) = choose|
        directory: String,
        parsed: Result<ShellCommandToolCallParams, String>,
    |
        {
            &&& #[trigger] is_directory(placed.place.cwd, join, directory)
            &&& #[trigger] reads_against(parse, placed.arguments@, directory@, parsed)
            &&& reads_command(placed, directory, parsed, stage)
        };
    lemma_made_of(placed.place.cwd, join, directory);
    let (a, d) = choose|a: &str, d: &str|
        a@ == placed.arguments@ && d@ == directory@ && #[trigger] call_ensures(
            parse,
            (a, d),
            parsed,
        );
    assert(call_ensures(parse, (a, d), parsed));
}

/// A command of the `shell_command` tool runs in its environment, as that one's
/// shell runs it. It is refused exactly where it asks for a login shell that is not
/// allowed. Only a remote environment is told how to make up the variables, by the
/// whole policy. The call's own permissions and rule come with it.
pub proof fn law_shell_command_runs_in_its_environment<D: Fn(&str, &str, bool) -> Vec<String>>(
    ready: CommandReadyStage,
    handler: ShellCommandHandler,
    tool_name: String,
    call_id: String,
    settings: TurnExecSettings,
    policy: ShellEnvironmentPolicy,
    allowed: bool,
    derive_exec_args: D,
    args: Result<RunExecLikeArgs, FunctionCallError>,
)
    requires
        call_ensures(
            CommandReadyStage::run_args::<D>,
            (
                ready,
                &handler,
                tool_name,
                call_id,
                settings,
                &policy,
                allowed,
                derive_exec_args,
            ),
            args,
        ),
    ensures
        args is Err <==> ready.params.login is Some && ready.params.login->0 && !allowed,
        args is Err ==> responds(
            args->Err_0,
            "login shell is disabled by config; omit `login` or set it to false."@,
        ),
        args is Ok ==> {
            let run = args->Ok_0;
            let config = run.exec_server_env_config;
            &&& run.environment.index == ready.place.environment
            &&& run.environment.is_remote == ready.is_remote
            &&& run.tool_name@ == tool_name@
            &&& run.call_id@ == call_id@
            &&& is_run_by(
                derive_exec_args,
                ready.shell@,
                ready.params.command@,
                if ready.params.login is Some {
                    ready.params.login->0
                } else {
                    allowed
                },
                run.exec_params.command,
            )
            &&& run.exec_params.cwd@ == ready.cwd@
            &&& run.exec_params.timeout_ms == ready.params.timeout_ms
            &&& run.exec_params.justification == ready.params.justification
            &&& ready.params.sandbox_permissions is Some ==> run.exec_params.sandbox_permissions
                == ready.params.sandbox_permissions->0
            &&& ready.params.sandbox_permissions is None
                ==> run.exec_params.sandbox_permissions is UseDefault
            &&& run.exec_params.env@ == settings.env@
            &&& run.exec_params.network == settings.network
            &&& run.exec_params.windows_sandbox_level == settings.windows_sandbox_level
            &&& run.exec_params.windows_sandbox_private_desktop
                == settings.windows_sandbox_private_desktop
            &&& run.exec_params.capture_policy is ShellTool
            &&& run.exec_params.arg0 is None
            &&& run.hook_command@ == ready.params.command@
            &&& run.remote_execution_enabled
            &&& config is Some <==> ready.is_remote
            &&& config is Some ==> {
                &&& config->0.local_policy_env@ == settings.env@
                &&& config->0.policy.inherit == policy.inherit
                &&& config->0.policy.ignore_default_excludes == policy.ignore_default_excludes
                &&& config->0.policy.exclude@ == policy.exclude@
                &&& config->0.policy.set_vars@ == policy.set_vars@
                &&& config->0.policy.include_only@ == policy.include_only@
            }
            &&& run.additional_permissions == ready.params.additional_permissions
            &&& run.prefix_rule == ready.params.prefix_rule
            &&& run.freeform
            &&& handler.backend is Classic ==> run.shell_runtime_backend is ShellCommandClassic
            &&& handler.backend is ZshFork ==> run.shell_runtime_backend is ShellCommandZshFork
        },
{
    if args is Ok {
        let login = login_shell(ready.params.login, allowed)->0;
        let argv = args->Ok_0.exec_params.command;
        assert(runs_script(
            derive_exec_args,
            ready.shell@,
            ready.params.command@,
            login,
            argv,
        ));
        assert(is_run_by(derive_exec_args, ready.shell@, ready.params.command@, login, argv));
    }
}

} // verus!
