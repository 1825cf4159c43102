//! One attempt of the shell runtime to run a command.

use crate::env_map::EnvMap;
use crate::exec::{clone_strings, same_env_config, ExecCapturePolicy, NetworkRef};
use crate::exec_like::{carries_over, SettledExec};
use crate::exec_output::ToolError;
use crate::exec_server::ExecRequest;
use crate::profile::{
    clone_profile, profile_view, AdditionalPermissionProfile, SandboxPermissions,
};
use crate::runtime::{gives_as_asked, lemma_gives_as_asked, ShellRuntime};
use crate::shell_request::{RunExecLikeArgs, ShellRequest, ShellRuntimeBackend};
use vstd::prelude::*;

verus! {

/// A command that is ready to be put into its sandbox.
pub struct PreparedRun {
    pub command: Vec<String>,
    pub env: EnvMap,
    pub network: Option<NetworkRef>,
    /// The command is first handed to a forked zsh.
    pub tries_zsh_fork: bool,
    /// The command is run by the exec server of a remote environment.
    pub runs_remotely: bool,
}

/// What comes after a forked zsh was handed the command.
pub enum AfterZshFork<O> {
    /// It ran the command, which gave this output.
    Finished(O),
    /// It could not; the command is run as any other is.
    FallBack(PreparedRun),
}

/// How long a command runs and how much of its output is kept.
#[derive(Clone, Copy, Debug, PartialEq, Eq, Structural)]
pub struct ExecOptions {
    pub timeout_ms: Option<u64>,
    /// The command ends where its access to the network is denied.
    pub ends_on_network_denial: bool,
    pub capture_policy: ExecCapturePolicy,
}

/// The message where a tool does not run commands in remote environments.
pub open spec fn remote_message() -> Seq<char> {
    "shell execution is unavailable for remote environments"@
}

/// The request is for a remote environment, and its tool does not run commands
/// there.
pub open spec fn is_out_of_reach(request: ShellRequest) -> bool {
    request.environment.is_remote && !request.remote_execution_enabled
}

/// `wrapped` is the request's command, wrapped by `wrap` so that it starts from a
/// snapshot of the shell; a remote command is left as it is.
pub open spec fn wraps_command<W: Fn(&Vec<String>, &str, &EnvMap, &EnvMap) -> Vec<String>>(
    wrapped: Seq<String>,
    request: ShellRequest,
    env: EnvMap,
    wrap: W,
) -> bool {
    if request.environment.is_remote {
        wrapped == request.command@
    } else {
        exists|cwd: &str, argv: Vec<String>|
            {
                &&& cwd@ == request.cwd@
                &&& wrapped == argv@
                &&& #[trigger] call_ensures(
                    wrap,
                    (&request.command, cwd, &request.explicit_env_overrides, &env),
                    argv,
                )
            }
    }
}

/// `command` is the request's command as the session's shell is to run it: in a
/// PowerShell, `prefix` makes it write UTF-8.
pub open spec fn shapes_command<
    W: Fn(&Vec<String>, &str, &EnvMap, &EnvMap) -> Vec<String>,
    P: Fn(&Vec<String>) -> Vec<String>,
>(
    command: Vec<String>,
    request: ShellRequest,
    env: EnvMap,
    is_powershell: bool,
    wrap: W,
    prefix: P,
) -> bool {
    if is_powershell {
        exists|wrapped: Vec<String>|
            wraps_command(wrapped@, request, env, wrap) && #[trigger] call_ensures(
                prefix,
                (&wrapped,),
                command,
            )
    } else {
        wraps_command(command@, request, env, wrap)
    }
}

impl ShellRuntime {
    /// Prepares the request's command. It is refused for a remote environment
    /// where its tool does not run commands there.
    ///
    /// `managed_network` is the proxy that a command with the given permissions
    /// goes through, and `sandbox_env` its environment. `wrap` makes a command
    /// start from a snapshot of the shell, and `prefix` makes a PowerShell
    /// script write UTF-8.
    pub fn prepare_run<
        M: FnOnce(Option<NetworkRef>, SandboxPermissions) -> Option<NetworkRef>,
        E: FnOnce(&EnvMap, SandboxPermissions) -> EnvMap,
        W: Fn(&Vec<String>, &str, &EnvMap, &EnvMap) -> Vec<String>,
        P: Fn(&Vec<String>) -> Vec<String>,
    >(
        &self,
        request: &ShellRequest,
        is_powershell: bool,
        managed_network: M,
        sandbox_env: E,
        wrap: W,
        prefix: P,
    ) -> (prepared: Result<PreparedRun, ToolError>)
        requires
            call_requires(managed_network, (request.network, request.sandbox_permissions)),
            call_requires(sandbox_env, (&request.env, request.sandbox_permissions)),
            forall|argv: &Vec<String>, cwd: &str, overrides: &EnvMap, env: &EnvMap|
                call_requires(wrap, (argv, cwd, overrides, env)),
            forall|argv: &Vec<String>| call_requires(prefix, (argv,)),
        ensures
            match prepared {
                Ok(run) => {
                    &&& !is_out_of_reach(*request)
                    &&& call_ensures(
                        managed_network,
                        (request.network, request.sandbox_permissions),
                        run.network,
                    )
                    &&& call_ensures(
                        sandbox_env,
                        (&request.env, request.sandbox_permissions),
                        run.env,
                    )
                    &&& shapes_command(
                        run.command,
                        *request,
                        run.env,
                        is_powershell,
                        wrap,
                        prefix,
                    )
                    &&& run.tries_zsh_fork == (self.backend
                        == ShellRuntimeBackend::ShellCommandZshFork
                        && !request.environment.is_remote)
                    &&& run.runs_remotely == request.environment.is_remote
                },
                Err(error) => is_out_of_reach(*request) && error.rejects(remote_message()),
            },
    {
        let is_remote = request.environment.is_remote;
        if is_remote && !request.remote_execution_enabled {
            return Err(
                ToolError::Rejected(
                    "shell execution is unavailable for remote environments".to_owned(),
                ),
            );
        }
        let network = managed_network(request.network, request.sandbox_permissions);
        let env = sandbox_env(&request.env, request.sandbox_permissions);
        let wrapped = if is_remote {
            clone_strings(&request.command)
        } else {
            wrap(&request.command, request.cwd.as_str(), &request.explicit_env_overrides, &env)
        };
        assert(wraps_command(wrapped@, *request, env, wrap));
        let command = if is_powershell {
            prefix(&wrapped)
        } else {
            wrapped
        };
        assert(shapes_command(command, *request, env, is_powershell, wrap, prefix));
        Ok(
            PreparedRun {
                command,
                env,
                network,
                tries_zsh_fork: matches!(self.backend, ShellRuntimeBackend::ShellCommandZshFork)
                    && !is_remote,
                runs_remotely: is_remote,
            },
        )
    }
}

impl PreparedRun {
    /// Takes what a forked zsh made of the command: its output, or nothing where
    /// it could not run it.
    pub fn after_zsh_fork<O>(self, output: Option<O>) -> (next: AfterZshFork<O>)
        ensures
            match (output, next) {
                (Some(out), AfterZshFork::Finished(finished)) => finished == out,
                (None, AfterZshFork::FallBack(run)) => run == (PreparedRun {
                    tries_zsh_fork: false,
                    ..self
                }),
                _ => false,
            },
    {
        match output {
            Some(out) => AfterZshFork::Finished(out),
            None => AfterZshFork::FallBack(
                PreparedRun {
                    command: self.command,
                    env: self.env,
                    network: self.network,
                    tries_zsh_fork: false,
                    runs_remotely: self.runs_remotely,
                },
            ),
        }
    }
}

/// `built` is what `build` makes of the prepared command for the request's
/// directory and permissions.
pub open spec fn builds_command<
    B,
    F: FnOnce(&Vec<String>, &str, &EnvMap, Option<AdditionalPermissionProfile>) -> Result<
        B,
        ToolError,
    >,
>(run: PreparedRun, request: ShellRequest, build: F, built: Result<B, ToolError>) -> bool {
    exists|cwd: &str, permissions: Option<AdditionalPermissionProfile>|
        {
            &&& cwd@ == request.cwd@
            &&& profile_view(permissions) == profile_view(request.additional_permissions)
            &&& #[trigger] call_ensures(build, (&run.command, cwd, &run.env, permissions), built)
        }
}

/// How the request's command is run: within the request's time limit, and with
/// as much output kept as the shell tools keep.
pub open spec fn options_of(request: ShellRequest, ends_on_network_denial: bool) -> ExecOptions {
    ExecOptions {
        timeout_ms: request.timeout_ms,
        ends_on_network_denial,
        capture_policy: ExecCapturePolicy::ShellTool,
    }
}

/// The command is put into its sandbox by `transform`, and keeps how an exec
/// server makes up its environment.
pub open spec fn sandboxes<
    B,
    T: FnOnce(B, ExecOptions, Option<NetworkRef>) -> Result<ExecRequest, ToolError>,
>(
    built: B,
    options: ExecOptions,
    network: Option<NetworkRef>,
    request: ShellRequest,
    transform: T,
    result: Result<ExecRequest, ToolError>,
) -> bool {
    exists|transformed: Result<ExecRequest, ToolError>|
        {
            &&& #[trigger] call_ensures(transform, (built, options, network), transformed)
            &&& match (transformed, result) {
                (Ok(made), Ok(exec)) => {
                    &&& same_env_config(exec.exec_server_env_config, request.exec_server_env_config)
                    &&& exec == (ExecRequest {
                        exec_server_env_config: exec.exec_server_env_config,
                        ..made
                    })
                },
                (Err(reason), Err(error)) => error == reason,
                _ => false,
            }
        }
}

/// The result of building the command and putting it into its sandbox.
pub open spec fn is_sandboxed<
    B,
    F: FnOnce(&Vec<String>, &str, &EnvMap, Option<AdditionalPermissionProfile>) -> Result<
        B,
        ToolError,
    >,
    T: FnOnce(B, ExecOptions, Option<NetworkRef>) -> Result<ExecRequest, ToolError>,
>(
    run: PreparedRun,
    request: ShellRequest,
    ends_on_network_denial: bool,
    build: F,
    transform: T,
    result: Result<ExecRequest, ToolError>,
) -> bool {
    exists|built: Result<B, ToolError>|
        {
            &&& #[trigger] builds_command(run, request, build, built)
            &&& match built {
                Ok(command) => sandboxes(
                    command,
                    options_of(request, ends_on_network_denial),
                    run.network,
                    request,
                    transform,
                    result,
                ),
                Err(reason) => result is Err && result->Err_0 == reason,
            }
        }
}

impl PreparedRun {
    /// Puts the command into its sandbox. `build` makes a command for the sandbox
    /// of the words, the directory, the variables and the permissions, and
    /// `transform` puts it into the sandbox of this attempt. The command ends
    /// where its access to the network is denied, if the attempt says so.
    pub fn into_exec_request<
        B,
        F: FnOnce(&Vec<String>, &str, &EnvMap, Option<AdditionalPermissionProfile>) -> Result<
            B,
            ToolError,
        >,
        T: FnOnce(B, ExecOptions, Option<NetworkRef>) -> Result<ExecRequest, ToolError>,
    >(
        self,
        request: &ShellRequest,
        ends_on_network_denial: bool,
        build: F,
        transform: T,
    ) -> (result: Result<ExecRequest, ToolError>)
        requires
            forall|
                argv: &Vec<String>,
                cwd: &str,
                env: &EnvMap,
                permissions: Option<AdditionalPermissionProfile>,
            | call_requires(build, (argv, cwd, env, permissions)),
            forall|command: B, options: ExecOptions, network: Option<NetworkRef>|
                call_requires(transform, (command, options, network)),
        ensures
            is_sandboxed(self, *request, ends_on_network_denial, build, transform, result),
    {
        let permissions = clone_profile(&request.additional_permissions);
        let built = build(&self.command, request.cwd.as_str(), &self.env, permissions);
        assert(builds_command(self, *request, build, built));
        let command = match built {
            Ok(command) => command,
            Err(error) => return Err(error),
        };
        let options = ExecOptions {
            timeout_ms: request.timeout_ms,
            ends_on_network_denial,
            capture_policy: ExecCapturePolicy::ShellTool,
        };
        let transformed = transform(command, options, self.network);
        let ghost made = transformed;
        let result = match transformed {
            Ok(exec) => Ok(exec.with_env_config_of(request)),
            Err(error) => Err(error),
        };
        assert(call_ensures(transform, (command, options, self.network), made));
        assert(sandboxes(command, options, self.network, *request, transform, result));
        result
    }
}

/// A command of a tool that does not run commands remotely is refused exactly
/// where its environment is remote.
pub proof fn law_local_tools_are_refused_remotely(
    args: RunExecLikeArgs,
    settled: SettledExec,
    dependency_env: Map<Seq<char>, Seq<char>>,
    set_vars: Map<Seq<char>, Seq<char>>,
    request: ShellRequest,
)
    requires
        !args.remote_execution_enabled,
        carries_over(settled, args, dependency_env, set_vars),
        request.environment == settled.environment,
        request.remote_execution_enabled == settled.remote_execution_enabled,
    ensures
        is_out_of_reach(request) <==> args.environment.is_remote,
{
}

/// The words are those that `wrap` makes of the request's command in the request's
/// directory, for its overrides and the prepared variables.
pub open spec fn is_wrapped_by<W: Fn(&Vec<String>, &str, &EnvMap, &EnvMap) -> Vec<String>>(
    words: Seq<String>,
    request: ShellRequest,
    env: EnvMap,
    wrap: W,
) -> bool {
    exists|cwd: &str, argv: Vec<String>|
        cwd@ == request.cwd@ && argv@ == words && #[trigger] call_ensures(
            wrap,
            (&request.command, cwd, &request.explicit_env_overrides, &env),
            argv,
        )
}

/// A command is refused exactly where its environment is remote and its tool does
/// not run commands there. It is handed to a forked zsh first exactly where its
/// tool is to use one and its environment is local, and is run by an exec server
/// exactly where its environment is remote. Only a local command is wrapped, and
/// only in a PowerShell is it prefixed.
pub proof fn law_command_is_prepared_for_its_environment<
    M: FnOnce(Option<NetworkRef>, SandboxPermissions) -> Option<NetworkRef>,
    E: FnOnce(&EnvMap, SandboxPermissions) -> EnvMap,
    W: Fn(&Vec<String>, &str, &EnvMap, &EnvMap) -> Vec<String>,
    P: Fn(&Vec<String>) -> Vec<String>,
>(
    runtime: ShellRuntime,
    request: ShellRequest,
    is_powershell: bool,
    managed_network: M,
    sandbox_env: E,
    wrap: W,
    prefix: P,
    prepared: Result<PreparedRun, ToolError>,
)
    requires
        call_ensures(
            ShellRuntime::prepare_run::<M, E, W, P>,
            (
                &runtime,
                &request,
                is_powershell,
                managed_network,
                sandbox_env,
                wrap,
                prefix,
            ),
            prepared,
        ),
    ensures
        prepared is Err <==> request.environment.is_remote && !request.remote_execution_enabled,
        match prepared {
            Err(ToolError::Rejected(message)) => message@
                == "shell execution is unavailable for remote environments"@,
            Err(_) => false,
            Ok(run) => {
                &&& run.runs_remotely == request.environment.is_remote
                &&& run.tries_zsh_fork <==> runtime.backend is ShellCommandZshFork
                    && !request.environment.is_remote
                &&& call_ensures(
                    managed_network,
                    (request.network, request.sandbox_permissions),
                    run.network,
                )
                &&& call_ensures(
                    sandbox_env,
                    (&request.env, request.sandbox_permissions),
                    run.env,
                )
            },
        },
        prepared is Ok && request.environment.is_remote && !is_powershell
            ==> prepared->Ok_0.command@ == request.command@,
        prepared is Ok && request.environment.is_remote && is_powershell ==> exists|
            words: Vec<String>,
        |
            words@ == request.command@ && #[trigger] call_ensures(
                prefix,
                (&words,),
                prepared->Ok_0.command,
            ),
        prepared is Ok && !request.environment.is_remote && !is_powershell ==> is_wrapped_by(
            prepared->Ok_0.command@,
            request,
            prepared->Ok_0.env,
            wrap,
        ),
        prepared is Ok && !request.environment.is_remote && is_powershell ==> exists|
            words: Vec<String>,
        |
            is_wrapped_by(words@, request, prepared->Ok_0.env, wrap) && #[trigger] call_ensures(
                prefix,
                (&words,),
                prepared->Ok_0.command,
            ),
{
    if prepared is Ok {
        let run = prepared->Ok_0;
        if is_powershell {
            let words = choose|words: Vec<String>|
                wraps_command(words@, request, run.env, wrap) && #[trigger] call_ensures(
                    prefix,
                    (&words,),
                    run.command,
                );
            assert(call_ensures(prefix, (&words,), run.command));
            if !request.environment.is_remote {
                assert(is_wrapped_by(words@, request, run.env, wrap));
            }
        } else if !request.environment.is_remote {
            assert(wraps_command(run.command@, request, run.env, wrap));
            assert(is_wrapped_by(run.command@, request, run.env, wrap));
        }
    }
}

/// A command that a forked zsh could not run is run as it was prepared, and not
/// handed to a zsh again. One that it ran is finished with what it gave.
pub proof fn law_zsh_is_tried_once<O>(
    run: PreparedRun,
    output: Option<O>,
    next: AfterZshFork<O>,
)
    requires
        call_ensures(PreparedRun::after_zsh_fork::<O>, (run, output), next),
    ensures
        match next {
            AfterZshFork::Finished(finished) => output == Some(finished),
            AfterZshFork::FallBack(again) => {
                &&& output is None
                &&& !again.tries_zsh_fork
                &&& again.command == run.command
                &&& again.env == run.env
                &&& again.network == run.network
                &&& again.runs_remotely == run.runs_remotely
            },
        },
{
}

/// The command is put into its sandbox within the request's time limit, with as
/// much output kept as the shell tools keep, and comes out as `transform` makes it,
/// but for the configuration, which is the request's.
pub open spec fn comes_out_of<
    B,
    T: FnOnce(B, ExecOptions, Option<NetworkRef>) -> Result<ExecRequest, ToolError>,
>(
    built: B,
    run: PreparedRun,
    request: ShellRequest,
    ends_on_network_denial: bool,
    transform: T,
    result: Result<ExecRequest, ToolError>,
) -> bool {
    exists|options: ExecOptions, made: Result<ExecRequest, ToolError>|
        {
            &&& #[trigger] call_ensures(transform, (built, options, run.network), made)
            &&& options.timeout_ms == request.timeout_ms
            &&& options.ends_on_network_denial == ends_on_network_denial
            &&& options.capture_policy is ShellTool
            &&& result is Ok <==> made is Ok
            &&& made is Err ==> result->Err_0 == made->Err_0
            &&& made is Ok ==> {
                let exec = result->Ok_0;
                &&& exec.command == made->Ok_0.command
                &&& exec.cwd == made->Ok_0.cwd
                &&& exec.env == made->Ok_0.env
                &&& exec.sandbox == made->Ok_0.sandbox
                &&& exec.arg0 == made->Ok_0.arg0
                &&& exec.exec_server_env_config is Some
                    <==> request.exec_server_env_config is Some
                &&& request.exec_server_env_config is Some ==> {
                    let taken = exec.exec_server_env_config->0;
                    let given = request.exec_server_env_config->0;
                    &&& taken.local_policy_env@ == given.local_policy_env@
                    &&& taken.policy.inherit == given.policy.inherit
                    &&& taken.policy.ignore_default_excludes
                        == given.policy.ignore_default_excludes
                    &&& taken.policy.exclude@ == given.policy.exclude@
                    &&& taken.policy.set_vars@ == given.policy.set_vars@
                    &&& taken.policy.include_only@ == given.policy.include_only@
                }
            }
        }
}

/// The prepared command is built for the request's directory and with its
/// permissions, and then put into its sandbox. What went wrong in either step is
/// handed on.
pub proof fn law_command_is_built_and_sandboxed<
    B,
    F: FnOnce(&Vec<String>, &str, &EnvMap, Option<AdditionalPermissionProfile>) -> Result<
        B,
        ToolError,
    >,
    T: FnOnce(B, ExecOptions, Option<NetworkRef>) -> Result<ExecRequest, ToolError>,
>(
    run: PreparedRun,
    request: ShellRequest,
    ends_on_network_denial: bool,
    build: F,
    transform: T,
    result: Result<ExecRequest, ToolError>,
)
    requires
        call_ensures(
            PreparedRun::into_exec_request::<B, F, T>,
            (run, &request, ends_on_network_denial, build, transform),
            result,
        ),
    ensures
        exists|
            cwd: &str,
            permissions: Option<AdditionalPermissionProfile>,
            built: Result<B, ToolError>,
        |
            {
                &&& cwd@ == request.cwd@
                &&& gives_as_asked(permissions, request.additional_permissions)
                &&& #[trigger] call_ensures(
                    build,
                    (&run.command, cwd, &run.env, permissions),
                    built,
                )
                &&& match built {
                    Ok(command) => comes_out_of(
                        command,
                        run,
                        request,
                        ends_on_network_denial,
                        transform,
                        result,
                    ),
                    Err(reason) => result == Err::<ExecRequest, ToolError>(reason),
                }
            },
{
    let options = options_of(request, ends_on_network_denial);
    let built = choose|built: Result<B, ToolError>|
        {
            &&& #[trigger] builds_command(run, request, build, built)
            &&& match built {
                Ok(command) => sandboxes(
                    command,
                    options,
                    run.network,
                    request,
                    transform,
                    result,
                ),
                Err(reason) => result is Err && result->Err_0 == reason,
            }
        };
    let (cwd, permissions) = choose|cwd: &str, permissions: Option<AdditionalPermissionProfile>|
        {
            &&& cwd@ == request.cwd@
            &&& profile_view(permissions) == profile_view(request.additional_permissions)
            &&& #[trigger] call_ensures(build, (&run.command, cwd, &run.env, permissions), built)
        };
    lemma_gives_as_asked(permissions, request.additional_permissions);
    if let Ok(command) = built {
        let made = choose|made: Result<ExecRequest, ToolError>|
            {
                &&& #[trigger] call_ensures(transform, (command, options, run.network), made)
                &&& match (made, result) {
                    (Ok(m), Ok(exec)) => {
                        &&& same_env_config(
                            exec.exec_server_env_config,
                            request.exec_server_env_config,
                        )
                        &&& exec == (ExecRequest {
                            exec_server_env_config: exec.exec_server_env_config,
                            ..m
                        })
                    },
                    (Err(reason), Err(error)) => error == reason,
                    _ => false,
                }
            };
        assert(call_ensures(transform, (command, options, run.network), made));
        assert(comes_out_of(command, run, request, ends_on_network_denial, transform, result));
    }
    assert(call_ensures(build, (&run.command, cwd, &run.env, permissions), built));
}

} // verus!
