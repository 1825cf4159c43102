//! What a command is run with.

use crate::env_map::EnvMap;
use crate::profile::SandboxPermissions;
use vstd::prelude::*;

verus! {

/// A network proxy that the host keeps under a number.
#[derive(Clone, Copy, Debug, PartialEq, Eq, Structural)]
pub struct NetworkRef {
    pub number: u64,
}

/// The level of the Windows sandbox, by the host's code for it.
#[derive(Clone, Copy, Debug, PartialEq, Eq, Structural)]
pub struct WindowsSandboxLevel {
    pub code: u8,
}

/// How much of a command's output is kept.
#[derive(Clone, Copy, Debug, PartialEq, Eq, Structural)]
pub enum ExecCapturePolicy {
    /// As the shell tools keep it.
    ShellTool,
    /// All of it.
    FullBuffer,
}

/// Which variables a command takes over from the host.
#[derive(Clone, Copy, Debug, PartialEq, Eq, Structural)]
pub enum EnvInherit {
    Core,
    All,
    Nothing,
}

/// How the environment of a command is made up.
pub struct ShellEnvironmentPolicy {
    pub inherit: EnvInherit,
    pub ignore_default_excludes: bool,
    /// Patterns of names that are left out.
    pub exclude: Vec<String>,
    /// Variables that are set whatever is inherited.
    pub set_vars: EnvMap,
    /// Patterns of the only names that are kept.
    pub include_only: Vec<String>,
}

/// How an exec server makes up the environment of a process.
pub struct ExecEnvPolicy {
    pub inherit: EnvInherit,
    pub ignore_default_excludes: bool,
    pub exclude: Vec<String>,
    pub set_vars: EnvMap,
    pub include_only: Vec<String>,
}

/// The policy for an exec server, with what the policy makes of the local
/// environment.
pub struct ExecServerEnvConfig {
    pub policy: ExecEnvPolicy,
    pub local_policy_env: EnvMap,
}

/// A copy of a list of strings.
pub fn clone_strings(strings: &Vec<String>) -> (copy: Vec<String>)
    ensures
        copy@ == strings@,
{
    let copy = strings.clone();
    assert(copy@ =~= strings@);
    copy
}

/// The words of an optional list.
pub open spec fn words_view(words: Option<Vec<String>>) -> Option<Seq<String>> {
    match words {
        Some(list) => Some(list@),
        None => None,
    }
}

/// A copy of an optional list of strings.
pub fn clone_optional_strings(strings: &Option<Vec<String>>) -> (copy: Option<Vec<String>>)
    ensures
        words_view(copy) == words_view(*strings),
{
    match strings {
        Some(list) => Some(clone_strings(list)),
        None => None,
    }
}

/// The two policies say the same.
pub open spec fn same_policy(a: ExecEnvPolicy, b: ExecEnvPolicy) -> bool {
    &&& a.inherit == b.inherit
    &&& a.ignore_default_excludes == b.ignore_default_excludes
    &&& a.exclude@ == b.exclude@
    &&& a.set_vars@ == b.set_vars@
    &&& a.include_only@ == b.include_only@
}

/// The two configurations say the same.
pub open spec fn same_env_config(
    a: Option<ExecServerEnvConfig>,
    b: Option<ExecServerEnvConfig>,
) -> bool {
    match (a, b) {
        (Some(x), Some(y)) => same_policy(x.policy, y.policy) && x.local_policy_env@
            == y.local_policy_env@,
        (None, None) => true,
        _ => false,
    }
}

impl Clone for ExecEnvPolicy {
    fn clone(&self) -> (copy: ExecEnvPolicy)
        ensures
            same_policy(copy, *self),
    {
        ExecEnvPolicy {
            inherit: self.inherit,
            ignore_default_excludes: self.ignore_default_excludes,
            exclude: clone_strings(&self.exclude),
            set_vars: self.set_vars.clone(),
            include_only: clone_strings(&self.include_only),
        }
    }
}

/// A copy of an optional configuration.
pub fn clone_env_config(config: &Option<ExecServerEnvConfig>) -> (copy: Option<ExecServerEnvConfig>)
    ensures
        same_env_config(copy, *config),
{
    match config {
        Some(c) => Some(
            ExecServerEnvConfig {
                policy: c.policy.clone(),
                local_policy_env: c.local_policy_env.clone(),
            },
        ),
        None => None,
    }
}

/// The exec server's policy says what the shell's policy says.
pub open spec fn is_policy_of(server: ExecEnvPolicy, shell: ShellEnvironmentPolicy) -> bool {
    &&& server.inherit == shell.inherit
    &&& server.ignore_default_excludes == shell.ignore_default_excludes
    &&& server.exclude@ == shell.exclude@
    &&& server.set_vars@ == shell.set_vars@
    &&& server.include_only@ == shell.include_only@
}

/// The policy for an exec server that says what the shell's policy says.
pub fn exec_server_env_policy_from_shell_policy(policy: &ShellEnvironmentPolicy) -> (server:
    ExecEnvPolicy)
    ensures
        is_policy_of(server, *policy),
{
    ExecEnvPolicy {
        inherit: policy.inherit,
        ignore_default_excludes: policy.ignore_default_excludes,
        exclude: clone_strings(&policy.exclude),
        set_vars: policy.set_vars.clone(),
        include_only: clone_strings(&policy.include_only),
    }
}

/// The configuration that lets an exec server make up a command's environment
/// where `local_policy_env` is what the policy makes of the local one.
pub fn exec_server_env_config(policy: &ShellEnvironmentPolicy, local_policy_env: &EnvMap) -> (config:
    ExecServerEnvConfig)
    ensures
        is_policy_of(config.policy, *policy),
        config.local_policy_env@ == local_policy_env@,
{
    ExecServerEnvConfig {
        policy: exec_server_env_policy_from_shell_policy(policy),
        local_policy_env: local_policy_env.clone(),
    }
}

/// A command and how it is run.
pub struct ExecParams {
    pub command: Vec<String>,
    pub cwd: String,
    /// The time limit that was asked for.
    pub timeout_ms: Option<u64>,
    pub capture_policy: ExecCapturePolicy,
    pub env: EnvMap,
    pub network: Option<NetworkRef>,
    pub sandbox_permissions: SandboxPermissions,
    pub windows_sandbox_level: WindowsSandboxLevel,
    pub windows_sandbox_private_desktop: bool,
    pub justification: Option<String>,
    pub arg0: Option<String>,
}

/// What a turn gives to every command that it runs.
pub struct TurnExecSettings {
    pub env: EnvMap,
    pub network: Option<NetworkRef>,
    pub windows_sandbox_level: WindowsSandboxLevel,
    pub windows_sandbox_private_desktop: bool,
}

/// The parameters take over the turn's settings.
pub open spec fn takes_settings(params: ExecParams, settings: TurnExecSettings) -> bool {
    &&& params.env == settings.env
    &&& params.network == settings.network
    &&& params.windows_sandbox_level == settings.windows_sandbox_level
    &&& params.windows_sandbox_private_desktop == settings.windows_sandbox_private_desktop
    &&& params.capture_policy == ExecCapturePolicy::ShellTool
    &&& params.arg0 is None
}

/// What the command asks of the sandbox, the default where it asks for nothing.
pub open spec fn asked_or_default(asked: Option<SandboxPermissions>) -> SandboxPermissions {
    match asked {
        Some(permissions) => permissions,
        None => SandboxPermissions::UseDefault,
    }
}

/// The parameters of a command of the shell tools.
pub fn shell_exec_params(
    command: Vec<String>,
    cwd: String,
    timeout_ms: Option<u64>,
    asked: Option<SandboxPermissions>,
    justification: Option<String>,
    settings: TurnExecSettings,
) -> (params: ExecParams)
    ensures
        params.command == command,
        params.cwd == cwd,
        params.timeout_ms == timeout_ms,
        params.sandbox_permissions == asked_or_default(asked),
        params.justification == justification,
        takes_settings(params, settings),
{
    ExecParams {
        command,
        cwd,
        timeout_ms,
        capture_policy: ExecCapturePolicy::ShellTool,
        env: settings.env,
        network: settings.network,
        sandbox_permissions: match asked {
            Some(permissions) => permissions,
            None => SandboxPermissions::default(),
        },
        windows_sandbox_level: settings.windows_sandbox_level,
        windows_sandbox_private_desktop: settings.windows_sandbox_private_desktop,
        justification,
        arg0: None,
    }
}

/// An exec server is given the shell's policy in every part, and what the policy makes of the local
/// environment.
pub proof fn law_server_is_given_the_whole_policy(
    policy: ShellEnvironmentPolicy,
    local_policy_env: EnvMap,
    server: ExecEnvPolicy,
    config: ExecServerEnvConfig,
)
    requires
        call_ensures(exec_server_env_policy_from_shell_policy, (&policy,), server),
        call_ensures(exec_server_env_config, (&policy, &local_policy_env), config),
    ensures
        server.inherit == policy.inherit,
        server.ignore_default_excludes == policy.ignore_default_excludes,
        server.exclude@ == policy.exclude@,
        server.set_vars@ == policy.set_vars@,
        server.include_only@ == policy.include_only@,
        config.policy.inherit == policy.inherit,
        config.policy.ignore_default_excludes == policy.ignore_default_excludes,
        config.policy.exclude@ == policy.exclude@,
        config.policy.set_vars@ == policy.set_vars@,
        config.policy.include_only@ == policy.include_only@,
        config.local_policy_env@ == local_policy_env@,
{
}

/// A copy of a configuration has the same policy in every part, and the same local
/// environment.
pub proof fn law_copied_configuration_is_whole(
    config: Option<ExecServerEnvConfig>,
    copy: Option<ExecServerEnvConfig>,
)
    requires
        call_ensures(clone_env_config, (&config,), copy),
    ensures
        copy is Some <==> config is Some,
        config is Some ==> {
            &&& copy->0.policy.inherit == config->0.policy.inherit
            &&& copy->0.policy.ignore_default_excludes == config->0.policy.ignore_default_excludes
            &&& copy->0.policy.exclude@ == config->0.policy.exclude@
            &&& copy->0.policy.set_vars@ == config->0.policy.set_vars@
            &&& copy->0.policy.include_only@ == config->0.policy.include_only@
            &&& copy->0.local_policy_env@ == config->0.local_policy_env@
        },
{
}

/// A copy of an optional list of words has the same words.
pub proof fn law_copied_words_are_the_same(words: Option<Vec<String>>, copy: Option<Vec<String>>)
    requires
        call_ensures(clone_optional_strings, (&words,), copy),
    ensures
        copy is Some <==> words is Some,
        words is Some ==> copy->0@ == words->0@,
{
}

/// A command of the shell tools runs as it was asked for, in what the turn gives to
/// every command. It asks for the default of the sandbox only where it asks for
/// that or for nothing.
pub proof fn law_shell_command_runs_as_asked(
    command: Vec<String>,
    cwd: String,
    timeout_ms: Option<u64>,
    asked: Option<SandboxPermissions>,
    justification: Option<String>,
    settings: TurnExecSettings,
    params: ExecParams,
)
    requires
        call_ensures(
            shell_exec_params,
            (command, cwd, timeout_ms, asked, justification, settings),
            params,
        ),
    ensures
        params.command@ == command@,
        params.cwd@ == cwd@,
        params.timeout_ms == timeout_ms,
        asked is Some ==> params.sandbox_permissions == asked->0,
        asked is None ==> params.sandbox_permissions is UseDefault,
        params.justification == justification,
        params.env@ == settings.env@,
        params.network == settings.network,
        params.windows_sandbox_level == settings.windows_sandbox_level,
        params.windows_sandbox_private_desktop == settings.windows_sandbox_private_desktop,
        params.capture_policy is ShellTool,
        params.arg0 is None,
{
}

/// A copy of a list of words has the same words in the same places.
pub proof fn law_copied_list_is_the_same(words: Vec<String>, copy: Vec<String>)
    requires
        call_ensures(clone_strings, (&words,), copy),
    ensures
        copy@.len() == words@.len(),
        forall|i: int| #![trigger copy@[i]] 0 <= i < words@.len() ==> copy@[i]@ == words@[i]@,
{
}

/// A copy of a policy says the same in every part.
pub proof fn law_copied_policy_is_whole(policy: ExecEnvPolicy, copy: ExecEnvPolicy)
    requires
        call_ensures(ExecEnvPolicy::clone, (&policy,), copy),
    ensures
        copy.inherit == policy.inherit,
        copy.ignore_default_excludes == policy.ignore_default_excludes,
        copy.exclude@ == policy.exclude@,
        copy.set_vars@ == policy.set_vars@,
        copy.include_only@ == policy.include_only@,
{
}

} // verus!
