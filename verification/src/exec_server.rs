//! What an exec server is asked to start.

use crate::env_map::{differing, law_differing_restores, EnvMap};
use crate::exec::{
    clone_env_config, clone_strings, same_env_config, same_policy, ExecEnvPolicy,
    ExecServerEnvConfig,
};
use crate::shell_request::ShellRequest;
use vstd::prelude::*;

verus! {

/// The kind of sandbox that a command runs in, by the host's code for it.
#[derive(Clone, Copy, Debug, PartialEq, Eq, Structural)]
pub struct SandboxType {
    pub code: u8,
}

/// A command as it is run in its sandbox.
pub struct ExecRequest {
    pub command: Vec<String>,
    pub cwd: String,
    pub env: EnvMap,
    pub exec_server_env_config: Option<ExecServerEnvConfig>,
    pub sandbox: SandboxType,
    pub arg0: Option<String>,
}

/// A process that an exec server is asked to start.
pub struct ExecServerParams {
    pub process_id: String,
    pub argv: Vec<String>,
    pub cwd: String,
    pub env_policy: Option<ExecEnvPolicy>,
    pub env: EnvMap,
    pub tty: bool,
    pub pipe_stdin: bool,
    pub arg0: Option<String>,
}

impl ExecRequest {
    /// Takes over how an exec server makes up the environment from the request
    /// that the command comes from.
    pub fn with_env_config_of(self, request: &ShellRequest) -> (configured: ExecRequest)
        ensures
            same_env_config(configured.exec_server_env_config, request.exec_server_env_config),
            configured == (ExecRequest {
                exec_server_env_config: configured.exec_server_env_config,
                ..self
            }),
    {
        ExecRequest {
            command: self.command,
            cwd: self.cwd,
            env: self.env,
            exec_server_env_config: clone_env_config(&request.exec_server_env_config),
            sandbox: self.sandbox,
            arg0: self.arg0,
        }
    }
}

/// The variables that are sent to an exec server: all of them, or where the
/// server makes up the environment itself, those that its policy does not give.
pub open spec fn sent_env(request: ExecRequest) -> Map<Seq<char>, Seq<char>> {
    match request.exec_server_env_config {
        Some(config) => differing(request.env@, config.local_policy_env@),
        None => request.env@,
    }
}

/// The policy that is sent to an exec server is that of the request.
pub open spec fn sends_policy(policy: Option<ExecEnvPolicy>, request: ExecRequest) -> bool {
    match (policy, request.exec_server_env_config) {
        (Some(sent), Some(config)) => same_policy(sent, config.policy),
        (None, None) => true,
        _ => false,
    }
}

/// The policy and the variables that are sent to an exec server.
pub fn exec_server_env_for_request(request: &ExecRequest) -> (sent: (
    Option<ExecEnvPolicy>,
    EnvMap,
))
    ensures
        sends_policy(sent.0, *request),
        sent.1@ == sent_env(*request),
{
    match &request.exec_server_env_config {
        Some(config) => (
            Some(config.policy.clone()),
            request.env.differing_from(&config.local_policy_env),
        ),
        None => (None, request.env.clone()),
    }
}

/// The process that an exec server is asked to start. It is known by the id of
/// the call, and has neither a terminal nor an open input.
pub fn exec_server_params_for_request(request: &ExecRequest, call_id: &str) -> (params:
    ExecServerParams)
    ensures
        params.process_id@ == call_id@,
        params.argv@ == request.command@,
        params.cwd == request.cwd,
        sends_policy(params.env_policy, *request),
        params.env@ == sent_env(*request),
        !params.tty,
        !params.pipe_stdin,
        params.arg0 == request.arg0,
{
    let (env_policy, env) = exec_server_env_for_request(request);
    ExecServerParams {
        process_id: call_id.to_owned(),
        argv: clone_strings(&request.command),
        cwd: request.cwd.clone(),
        env_policy,
        env,
        tty: false,
        pipe_stdin: false,
        arg0: request.arg0.clone(),
    }
}

/// A server whose policy gives what it gives locally has every variable of the
/// request, with its value, once the sent variables are laid over its own.
/// Nothing is sent that the request does not hold.
pub proof fn law_server_has_every_variable(request: ExecRequest)
    ensures
        match request.exec_server_env_config {
            Some(config) => request.env@.submap_of(
                config.local_policy_env@.union_prefer_right(sent_env(request)),
            ),
            None => request.env@ == sent_env(request),
        },
        sent_env(request).submap_of(request.env@),
{
    if let Some(config) = request.exec_server_env_config {
        law_differing_restores(request.env@, config.local_policy_env@);
    }
}

/// Without a configuration every variable of the request is sent. With one, a
/// variable is sent exactly if the policy does not give it or gives it another
/// value, and it is sent with the request's value. The policy is sent exactly where
/// there is one, in every part.
pub proof fn law_only_what_the_policy_does_not_give_is_sent(
    request: ExecRequest,
    sent: (Option<ExecEnvPolicy>, EnvMap),
    name: Seq<char>,
)
    requires
        call_ensures(exec_server_env_for_request, (&request,), sent),
    ensures
        sent.0 is Some <==> request.exec_server_env_config is Some,
        sent.1@.contains_key(name) ==> sent.1@[name] == request.env@[name],
        request.exec_server_env_config is None ==> (sent.1@.contains_key(name)
            <==> request.env@.contains_key(name)),
        request.exec_server_env_config is Some ==> {
            let given = request.exec_server_env_config->0.local_policy_env@;
            let policy = request.exec_server_env_config->0.policy;
            &&& sent.1@.contains_key(name) <==> request.env@.contains_key(name) && (
            !given.contains_key(name) || given[name] != request.env@[name])
            &&& sent.0->0.inherit == policy.inherit
            &&& sent.0->0.ignore_default_excludes == policy.ignore_default_excludes
            &&& sent.0->0.exclude@ == policy.exclude@
            &&& sent.0->0.set_vars@ == policy.set_vars@
            &&& sent.0->0.include_only@ == policy.include_only@
        },
{
}

/// The process that a server is asked to start is the command of the request in its
/// directory, known by the id of the call, without a terminal and without an open
/// input.
pub proof fn law_server_starts_the_requested_command(
    request: ExecRequest,
    call_id: &str,
    params: ExecServerParams,
    name: Seq<char>,
)
    requires
        call_ensures(exec_server_params_for_request, (&request, call_id), params),
    ensures
        params.process_id@ == call_id@,
        params.argv@ == request.command@,
        params.cwd@ == request.cwd@,
        params.arg0 == request.arg0,
        !params.tty,
        !params.pipe_stdin,
        params.env_policy is Some <==> request.exec_server_env_config is Some,
        params.env@.contains_key(name) ==> request.env@.contains_key(name) && params.env@[name]
            == request.env@[name],
        request.env@.contains_key(name) && !params.env@.contains_key(name)
            ==> request.exec_server_env_config is Some
            && request.exec_server_env_config->0.local_policy_env@.contains_key(name)
            && request.exec_server_env_config->0.local_policy_env@[name] == request.env@[name],
        request.exec_server_env_config is Some ==> {
            let policy = request.exec_server_env_config->0.policy;
            &&& params.env_policy->0.inherit == policy.inherit
            &&& params.env_policy->0.ignore_default_excludes == policy.ignore_default_excludes
            &&& params.env_policy->0.exclude@ == policy.exclude@
            &&& params.env_policy->0.set_vars@ == policy.set_vars@
            &&& params.env_policy->0.include_only@ == policy.include_only@
            &&& params.env@.contains_key(name)
                ==> !request.exec_server_env_config->0.local_policy_env@.contains_key(name)
                || request.exec_server_env_config->0.local_policy_env@[name] != request.env@[name]
        },
{
}

/// A command takes over only the configuration of the request that it comes from.
pub proof fn law_only_the_configuration_is_taken_over(
    exec: ExecRequest,
    request: ShellRequest,
    configured: ExecRequest,
)
    requires
        call_ensures(ExecRequest::with_env_config_of, (exec, &request), configured),
    ensures
        configured.command == exec.command,
        configured.cwd == exec.cwd,
        configured.env == exec.env,
        configured.sandbox == exec.sandbox,
        configured.arg0 == exec.arg0,
        configured.exec_server_env_config is Some <==> request.exec_server_env_config is Some,
        request.exec_server_env_config is Some ==> {
            let taken = configured.exec_server_env_config->0;
            let given = request.exec_server_env_config->0;
            &&& taken.local_policy_env@ == given.local_policy_env@
            &&& taken.policy.inherit == given.policy.inherit
            &&& taken.policy.ignore_default_excludes == given.policy.ignore_default_excludes
            &&& taken.policy.exclude@ == given.policy.exclude@
            &&& taken.policy.set_vars@ == given.policy.set_vars@
            &&& taken.policy.include_only@ == given.policy.include_only@
        },
{
}

} // verus!
