//! From the command that a tool asks to run to the request that the shell
//! runtime is given.

use crate::env_map::EnvMap;
use crate::error::{responds, FunctionCallError};
use crate::exec::{ExecParams, ExecServerEnvConfig};
use crate::json::{json_string, json_text};
use crate::permissions::{
    apply_granted_turn_permissions, checks_request, grants_applied, implicit_granted_permissions,
    normalize_and_validate_additional_permissions, optional_ref, EffectiveAdditionalPermissions,
};
use crate::profile::{
    clone_profile, give_the_same, law_profiles_differ_where_a_part_does, policy_name, profile_view,
    AdditionalPermissionProfile, AskForApproval, SandboxPermissions,
};
use crate::runtime::ShellRuntime;
use crate::shell_request::{
    EnvironmentRef, ExecApprovalRequirement, RunExecLikeArgs, ShellRequest, ShellRuntimeBackend,
};
use crate::tool::FunctionToolOutput;
use vstd::prelude::*;

verus! {

/// What a session lets a command ask for.
#[derive(Clone, Copy, Debug, PartialEq, Eq, Structural)]
pub struct PermissionFeatures {
    /// Commands may ask for additional permissions.
    pub exec_permission_approvals: bool,
    /// There is a tool that asks for permissions ahead of commands.
    pub request_permissions_tool: bool,
}

/// The message where a command asks for more than the sandbox gives and the
/// approval policy does not let it.
pub open spec fn escalation_message(policy: AskForApproval) -> Seq<char> {
    "approval policy is "@ + policy_name(policy)
        + "; reject command — you should not ask for escalated permissions if the approval policy is "@
        + policy_name(policy)
}

/// The command asks for more than the sandbox gives, nobody has granted it, and
/// the approval policy does not let it be asked for.
pub open spec fn escalation_refused(
    effective: EffectiveAdditionalPermissions,
    policy: AskForApproval,
) -> bool {
    &&& effective.sandbox_permissions != SandboxPermissions::UseDefault
    &&& !effective.permissions_preapproved
    &&& policy != AskForApproval::OnRequest
}

/// Whether additional permissions may come with a command: by the feature, or
/// because the tool that asks for permissions has been granted them all.
pub open spec fn permissions_allowed(
    features: PermissionFeatures,
    effective: EffectiveAdditionalPermissions,
) -> bool {
    features.exec_permission_approvals || (features.request_permissions_tool
        && effective.permissions_preapproved)
}

/// The permissions are granted ones, added to a command that asks for nothing
/// itself.
pub open spec fn grants_implicitly(
    sandbox_permissions: SandboxPermissions,
    asks: bool,
    effective: EffectiveAdditionalPermissions,
) -> bool {
    sandbox_permissions == SandboxPermissions::UseDefault && !asks
        && effective.additional_permissions is Some
}

/// The additional permissions that a command runs with, or why it does not run.
/// Granted permissions are taken as they are; permissions that are asked for are
/// checked and normalized.
pub open spec fn permissions_are<
    N: FnOnce(AdditionalPermissionProfile) -> Result<AdditionalPermissionProfile, String>,
>(
    args: RunExecLikeArgs,
    effective: EffectiveAdditionalPermissions,
    features: PermissionFeatures,
    policy: AskForApproval,
    normalize: N,
    permissions: Result<Option<AdditionalPermissionProfile>, String>,
) -> bool {
    if grants_implicitly(
        args.exec_params.sandbox_permissions,
        args.additional_permissions is Some,
        effective,
    ) {
        permissions is Ok && profile_view(permissions->Ok_0) == profile_view(
            effective.additional_permissions,
        )
    } else {
        checks_request(
            permissions_allowed(features, effective),
            policy,
            effective.sandbox_permissions,
            effective.additional_permissions,
            effective.permissions_preapproved,
            normalize,
            permissions,
        )
    }
}

/// A command whose permissions are settled.
pub struct SettledExec {
    pub tool_name: String,
    /// The command, with the variables of the session's dependencies added to
    /// its environment.
    pub exec_params: ExecParams,
    pub hook_command: String,
    pub environment: EnvironmentRef,
    pub remote_execution_enabled: bool,
    pub exec_server_env_config: Option<ExecServerEnvConfig>,
    /// The variables that are set on purpose.
    pub explicit_env_overrides: EnvMap,
    pub sandbox_permissions: SandboxPermissions,
    pub additional_permissions: Option<AdditionalPermissionProfile>,
    pub permissions_preapproved: bool,
    pub prefix_rule: Option<Vec<String>>,
    pub call_id: String,
    pub freeform: bool,
    pub shell_runtime_backend: ShellRuntimeBackend,
}

/// Both sets of parameters run the same command in the same way, but for its
/// environment variables.
pub open spec fn same_but_env(a: ExecParams, b: ExecParams) -> bool {
    &&& a.command == b.command
    &&& a.cwd == b.cwd
    &&& a.timeout_ms == b.timeout_ms
    &&& a.capture_policy == b.capture_policy
    &&& a.network == b.network
    &&& a.sandbox_permissions == b.sandbox_permissions
    &&& a.windows_sandbox_level == b.windows_sandbox_level
    &&& a.windows_sandbox_private_desktop == b.windows_sandbox_private_desktop
    &&& a.justification == b.justification
    &&& a.arg0 == b.arg0
}

/// The settled command is the one that was asked for. The variables of the
/// session's dependencies are laid over its own, and over those that the policy
/// sets, to make up the overrides.
pub open spec fn carries_over(
    settled: SettledExec,
    args: RunExecLikeArgs,
    dependency_env: Map<Seq<char>, Seq<char>>,
    set_vars: Map<Seq<char>, Seq<char>>,
) -> bool {
    &&& same_but_env(settled.exec_params, args.exec_params)
    &&& settled.exec_params.env@ == args.exec_params.env@.union_prefer_right(dependency_env)
    &&& settled.explicit_env_overrides@ == set_vars.union_prefer_right(dependency_env)
    &&& settled.tool_name == args.tool_name
    &&& settled.hook_command == args.hook_command
    &&& settled.environment == args.environment
    &&& settled.remote_execution_enabled == args.remote_execution_enabled
    &&& settled.exec_server_env_config == args.exec_server_env_config
    &&& settled.prefix_rule == args.prefix_rule
    &&& settled.call_id == args.call_id
    &&& settled.freeform == args.freeform
    &&& settled.shell_runtime_backend == args.shell_runtime_backend
}

/// The outcome of settling a command's permissions, given what the command asks
/// for with the granted permissions added.
pub open spec fn settles(
    args: RunExecLikeArgs,
    effective: EffectiveAdditionalPermissions,
    policy: AskForApproval,
    permissions: Result<Option<AdditionalPermissionProfile>, String>,
    outcome: Result<SettledExec, FunctionCallError>,
) -> bool {
    match (permissions, outcome) {
        (Err(message), Err(error)) => responds(error, message@),
        (Err(_), Ok(_)) => false,
        (Ok(kept), Ok(settled)) => {
            &&& !escalation_refused(effective, policy)
            &&& settled.additional_permissions == kept
            &&& settled.sandbox_permissions == effective.sandbox_permissions
            &&& settled.permissions_preapproved == effective.permissions_preapproved
        },
        (Ok(_), Err(error)) => escalation_refused(effective, policy) && responds(
            error,
            escalation_message(policy),
        ),
    }
}

/// The outcome of settling a command's permissions, where the session and the
/// turn were granted `session` and `turn`.
pub open spec fn is_settled<
    M: Fn(
        Option<&AdditionalPermissionProfile>,
        Option<&AdditionalPermissionProfile>,
    ) -> Option<AdditionalPermissionProfile>,
    I: Fn(&AdditionalPermissionProfile, &AdditionalPermissionProfile, &str) -> AdditionalPermissionProfile,
    N: FnOnce(AdditionalPermissionProfile) -> Result<AdditionalPermissionProfile, String>,
>(
    args: RunExecLikeArgs,
    session: Option<&AdditionalPermissionProfile>,
    turn: Option<&AdditionalPermissionProfile>,
    features: PermissionFeatures,
    policy: AskForApproval,
    merge: M,
    intersect: I,
    normalize: N,
    outcome: Result<SettledExec, FunctionCallError>,
) -> bool {
    exists|
        cwd: &str,
        effective: EffectiveAdditionalPermissions,
        permissions: Result<Option<AdditionalPermissionProfile>, String>,
    |
        {
            &&& cwd@ == args.exec_params.cwd@
            &&& #[trigger] grants_applied(
                effective,
                session,
                turn,
                cwd,
                args.exec_params.sandbox_permissions,
                args.additional_permissions,
                merge,
                intersect,
            )
            &&& #[trigger] permissions_are(
                args,
                effective,
                features,
                policy,
                normalize,
                permissions,
            )
            &&& settles(args, effective, policy, permissions, outcome)
        }
}

/// The error that refuses a command that asks for more than the sandbox gives.
fn escalation_error(policy: AskForApproval) -> (error: FunctionCallError)
    ensures
        responds(error, escalation_message(policy)),
{
    let name = policy.name();
    let mut message = "approval policy is ".to_owned();
    message.append(name.as_str());
    message.append(
        "; reject command — you should not ask for escalated permissions if the approval policy is ",
    );
    message.append(name.as_str());
    FunctionCallError::RespondToModel(message)
}

impl RunExecLikeArgs {
    /// Lays the variables of the session's dependencies over the command's own
    /// and settles what the command may do. `merge` joins two profiles,
    /// `intersect` cuts one down to another, and `normalize` normalizes the
    /// paths in one.
    pub fn settle<
        M: Fn(
            Option<&AdditionalPermissionProfile>,
            Option<&AdditionalPermissionProfile>,
        ) -> Option<AdditionalPermissionProfile>,
        I: Fn(&AdditionalPermissionProfile, &AdditionalPermissionProfile, &str) -> AdditionalPermissionProfile,
        N: FnOnce(AdditionalPermissionProfile) -> Result<AdditionalPermissionProfile, String>,
    >(
        self,
        dependency_env: &EnvMap,
        set_vars: &EnvMap,
        granted_session_permissions: Option<&AdditionalPermissionProfile>,
        granted_turn_permissions: Option<&AdditionalPermissionProfile>,
        features: PermissionFeatures,
        approval_policy: AskForApproval,
        merge: M,
        intersect: I,
        normalize: N,
    ) -> (outcome: Result<SettledExec, FunctionCallError>)
        requires
            forall|
                a: Option<&AdditionalPermissionProfile>,
                b: Option<&AdditionalPermissionProfile>,
            | call_requires(merge, (a, b)),
            forall|a: &AdditionalPermissionProfile, b: &AdditionalPermissionProfile, dir: &str|
                call_requires(intersect, (a, b, dir)),
            forall|profile: AdditionalPermissionProfile| call_requires(normalize, (profile,)),
        ensures
            is_settled(
                self,
                granted_session_permissions,
                granted_turn_permissions,
                features,
                approval_policy,
                merge,
                intersect,
                normalize,
                outcome,
            ),
            outcome is Ok ==> carries_over(outcome->Ok_0, self, dependency_env@, set_vars@),
    {
        let ghost args = self;
        let RunExecLikeArgs {
            tool_name,
            exec_params,
            hook_command,
            environment,
            remote_execution_enabled,
            exec_server_env_config,
            additional_permissions,
            prefix_rule,
            call_id,
            freeform,
            shell_runtime_backend,
        } = self;
        let mut exec_params = exec_params;
        exec_params.env.extend(dependency_env);
        let mut explicit_env_overrides = set_vars.clone();
        explicit_env_overrides.extend(dependency_env);

        let requested = clone_profile(&additional_permissions);
        let effective = apply_granted_turn_permissions(
            granted_session_permissions,
            granted_turn_permissions,
            exec_params.cwd.as_str(),
            exec_params.sandbox_permissions,
            additional_permissions,
            merge,
            intersect,
        );
        let allowed = features.exec_permission_approvals || (features.request_permissions_tool
            && effective.permissions_preapproved);
        let implicit = implicit_granted_permissions(
            exec_params.sandbox_permissions,
            requested.as_ref(),
            &effective,
        );
        let ghost applied = effective;
        let sandbox_permissions = effective.sandbox_permissions;
        let permissions_preapproved = effective.permissions_preapproved;
        let permissions = match implicit {
            Some(profile) => Ok(Some(profile)),
            None => normalize_and_validate_additional_permissions(
                allowed,
                approval_policy,
                sandbox_permissions,
                effective.additional_permissions,
                permissions_preapproved,
                normalize,
            ),
        };
        assert(permissions_are(args, applied, features, approval_policy, normalize, permissions));
        let additional_permissions = match permissions {
            Ok(kept) => kept,
            Err(message) => return Err(FunctionCallError::RespondToModel(message)),
        };
        if sandbox_permissions.requests_sandbox_override() && !permissions_preapproved && !matches!(
            approval_policy,
            AskForApproval::OnRequest
        ) {
            return Err(escalation_error(approval_policy));
        }
        Ok(
            SettledExec {
                tool_name,
                exec_params,
                hook_command,
                environment,
                remote_execution_enabled,
                exec_server_env_config,
                explicit_env_overrides,
                sandbox_permissions,
                additional_permissions,
                permissions_preapproved,
                prefix_rule,
                call_id,
                freeform,
                shell_runtime_backend,
            },
        )
    }
}

/// The permissions that a turn gives to every command, which the host keeps under a
/// number.
#[derive(Clone, Copy, Debug, PartialEq, Eq, Structural)]
pub struct PermissionProfileRef {
    pub number: u64,
}

/// The file system policy of a turn's sandbox, which the host keeps under a number.
#[derive(Clone, Copy, Debug, PartialEq, Eq, Structural)]
pub struct FileSystemPolicyRef {
    pub number: u64,
}

/// What a turn lets commands do.
#[derive(Clone, Copy, Debug, PartialEq, Eq, Structural)]
pub struct TurnPolicies {
    pub approval_policy: AskForApproval,
    pub permission_profile: PermissionProfileRef,
    pub file_system_sandbox_policy: FileSystemPolicyRef,
}

/// What the execution policy is asked about a command.
pub struct ExecApprovalRequest<'a> {
    pub command: &'a Vec<String>,
    pub approval_policy: AskForApproval,
    pub permission_profile: PermissionProfileRef,
    pub file_system_sandbox_policy: FileSystemPolicyRef,
    pub sandbox_cwd: &'a str,
    pub sandbox_permissions: SandboxPermissions,
    pub prefix_rule: &'a Option<Vec<String>>,
}

impl SettledExec {
    /// What the execution policy is asked about the command. Permissions that
    /// were granted before are not asked for again.
    pub fn approval_request(&self, turn: TurnPolicies) -> (request: ExecApprovalRequest<'_>)
        ensures
            *request.command == self.exec_params.command,
            request.approval_policy == turn.approval_policy,
            request.permission_profile == turn.permission_profile,
            request.file_system_sandbox_policy == turn.file_system_sandbox_policy,
            request.sandbox_cwd@ == self.exec_params.cwd@,
            request.sandbox_permissions == if self.permissions_preapproved {
                SandboxPermissions::UseDefault
            } else {
                self.sandbox_permissions
            },
            *request.prefix_rule == self.prefix_rule,
    {
        ExecApprovalRequest {
            command: &self.exec_params.command,
            approval_policy: turn.approval_policy,
            permission_profile: turn.permission_profile,
            file_system_sandbox_policy: turn.file_system_sandbox_policy,
            sandbox_cwd: self.exec_params.cwd.as_str(),
            sandbox_permissions: if self.permissions_preapproved {
                SandboxPermissions::UseDefault
            } else {
                self.sandbox_permissions
            },
            prefix_rule: &self.prefix_rule,
        }
    }

    /// The request to the shell runtime, once it is known what has to be
    /// approved. `time_limit` is the limit that stands for the one asked for.
    pub fn into_request<T: FnOnce(Option<u64>) -> Option<u64>>(
        self,
        exec_approval_requirement: ExecApprovalRequirement,
        time_limit: T,
    ) -> (request: ShellRequest)
        requires
            call_requires(time_limit, (self.exec_params.timeout_ms,)),
        ensures
            request.command == self.exec_params.command,
            request.hook_command == self.hook_command,
            request.cwd == self.exec_params.cwd,
            request.environment == self.environment,
            request.remote_execution_enabled == self.remote_execution_enabled,
            call_ensures(time_limit, (self.exec_params.timeout_ms,), request.timeout_ms),
            request.env == self.exec_params.env,
            request.exec_server_env_config == self.exec_server_env_config,
            request.explicit_env_overrides == self.explicit_env_overrides,
            request.network == self.exec_params.network,
            request.sandbox_permissions == self.sandbox_permissions,
            request.additional_permissions == self.additional_permissions,
            request.additional_permissions_preapproved == self.permissions_preapproved,
            request.justification == self.exec_params.justification,
            request.exec_approval_requirement == exec_approval_requirement,
    {
        ShellRequest {
            command: self.exec_params.command,
            hook_command: self.hook_command,
            cwd: self.exec_params.cwd,
            environment: self.environment,
            remote_execution_enabled: self.remote_execution_enabled,
            timeout_ms: time_limit(self.exec_params.timeout_ms),
            env: self.exec_params.env,
            exec_server_env_config: self.exec_server_env_config,
            explicit_env_overrides: self.explicit_env_overrides,
            network: self.exec_params.network,
            sandbox_permissions: self.sandbox_permissions,
            additional_permissions: self.additional_permissions,
            additional_permissions_preapproved: self.permissions_preapproved,
            justification: self.exec_params.justification,
            exec_approval_requirement,
        }
    }
}

/// The runtime that runs commands in the given way.
pub fn runtime_for(backend: ShellRuntimeBackend) -> (runtime: ShellRuntime)
    ensures
        runtime.backend == backend,
{
    match backend {
        ShellRuntimeBackend::Generic => ShellRuntime::new(),
        ShellRuntimeBackend::ShellCommandClassic => ShellRuntime::for_shell_command(backend),
        ShellRuntimeBackend::ShellCommandZshFork => ShellRuntime::for_shell_command(backend),
    }
}

/// What a command that has run hands back to the model: what `finished` shows of
/// it. `formatted` is its output as hooks see it, if it has run to its end.
pub fn exec_like_output(
    finished: Result<String, FunctionCallError>,
    formatted: Option<String>,
) -> (output: Result<FunctionToolOutput, FunctionCallError>)
    ensures
        match (finished, output) {
            (Ok(content), Ok(out)) => {
                &&& out.text == content
                &&& out.success == Some(true)
                &&& match (formatted, out.post_tool_use_response) {
                    (Some(text), Some(response)) => json_text(response) == Some(text@),
                    (None, None) => true,
                    _ => false,
                }
            },
            (Err(reason), Err(error)) => error == reason,
            _ => false,
        },
{
    match finished {
        Ok(content) => Ok(
            FunctionToolOutput {
                text: content,
                success: Some(true),
                post_tool_use_response: match formatted {
                    Some(text) => Some(json_string(text)),
                    None => None,
                },
            },
        ),
        Err(error) => Err(error),
    }
}

/// A command that asks for more than the sandbox gives is settled only where all
/// of it was granted before or the approval policy lets it be asked for.
pub proof fn law_override_is_granted_or_asked_for<
    M: Fn(
        Option<&AdditionalPermissionProfile>,
        Option<&AdditionalPermissionProfile>,
    ) -> Option<AdditionalPermissionProfile>,
    I: Fn(&AdditionalPermissionProfile, &AdditionalPermissionProfile, &str) -> AdditionalPermissionProfile,
    N: FnOnce(AdditionalPermissionProfile) -> Result<AdditionalPermissionProfile, String>,
>(
    args: RunExecLikeArgs,
    session: Option<&AdditionalPermissionProfile>,
    turn: Option<&AdditionalPermissionProfile>,
    features: PermissionFeatures,
    policy: AskForApproval,
    merge: M,
    intersect: I,
    normalize: N,
    settled: SettledExec,
)
    requires
        is_settled(
            args,
            session,
            turn,
            features,
            policy,
            merge,
            intersect,
            normalize,
            Ok(settled),
        ),
        settled.sandbox_permissions != SandboxPermissions::UseDefault,
    ensures
        settled.permissions_preapproved || policy == AskForApproval::OnRequest,
{
}

/// A command that is to run outside the sandbox is settled only where the
/// approval policy lets that be asked for, and only where it was asked for.
pub proof fn law_escalation_is_asked_for<
    M: Fn(
        Option<&AdditionalPermissionProfile>,
        Option<&AdditionalPermissionProfile>,
    ) -> Option<AdditionalPermissionProfile>,
    I: Fn(&AdditionalPermissionProfile, &AdditionalPermissionProfile, &str) -> AdditionalPermissionProfile,
    N: FnOnce(AdditionalPermissionProfile) -> Result<AdditionalPermissionProfile, String>,
>(
    args: RunExecLikeArgs,
    session: Option<&AdditionalPermissionProfile>,
    turn: Option<&AdditionalPermissionProfile>,
    features: PermissionFeatures,
    policy: AskForApproval,
    merge: M,
    intersect: I,
    normalize: N,
    settled: SettledExec,
)
    requires
        is_settled(
            args,
            session,
            turn,
            features,
            policy,
            merge,
            intersect,
            normalize,
            Ok(settled),
        ),
        settled.sandbox_permissions == SandboxPermissions::RequireEscalated,
    ensures
        policy == AskForApproval::OnRequest,
        args.exec_params.sandbox_permissions == SandboxPermissions::RequireEscalated,
{
}

/// A settled command carries additional permissions exactly if it runs in the
/// widened sandbox.
pub proof fn law_permissions_come_with_the_widened_sandbox<
    M: Fn(
        Option<&AdditionalPermissionProfile>,
        Option<&AdditionalPermissionProfile>,
    ) -> Option<AdditionalPermissionProfile>,
    I: Fn(&AdditionalPermissionProfile, &AdditionalPermissionProfile, &str) -> AdditionalPermissionProfile,
    N: FnOnce(AdditionalPermissionProfile) -> Result<AdditionalPermissionProfile, String>,
>(
    args: RunExecLikeArgs,
    session: Option<&AdditionalPermissionProfile>,
    turn: Option<&AdditionalPermissionProfile>,
    features: PermissionFeatures,
    policy: AskForApproval,
    merge: M,
    intersect: I,
    normalize: N,
    settled: SettledExec,
)
    requires
        is_settled(
            args,
            session,
            turn,
            features,
            policy,
            merge,
            intersect,
            normalize,
            Ok(settled),
        ),
    ensures
        settled.additional_permissions is Some <==> settled.sandbox_permissions
            == SandboxPermissions::WithAdditionalPermissions,
{
}

/// Every variable of the session's dependencies has the same value in the
/// command's environment and among the overrides.
pub proof fn law_overrides_agree_with_the_environment(
    settled: SettledExec,
    args: RunExecLikeArgs,
    dependency_env: Map<Seq<char>, Seq<char>>,
    set_vars: Map<Seq<char>, Seq<char>>,
    name: Seq<char>,
)
    requires
        carries_over(settled, args, dependency_env, set_vars),
        dependency_env.contains_key(name),
    ensures
        settled.exec_params.env@.contains_key(name),
        settled.exec_params.env@[name] == dependency_env[name],
        settled.explicit_env_overrides@.contains_key(name),
        settled.explicit_env_overrides@[name] == dependency_env[name],
{
}

/// What the command asks for joined with what was granted is always `joined`, where
/// what the session and the turn were granted is always `granted`; and whether all
/// of `joined` counts as granted is always `preapproved`.
pub open spec fn joins_grants<
    M: Fn(
        Option<&AdditionalPermissionProfile>,
        Option<&AdditionalPermissionProfile>,
    ) -> Option<AdditionalPermissionProfile>,
    I: Fn(&AdditionalPermissionProfile, &AdditionalPermissionProfile, &str) -> AdditionalPermissionProfile,
>(
    args: RunExecLikeArgs,
    session: Option<&AdditionalPermissionProfile>,
    turn: Option<&AdditionalPermissionProfile>,
    merge: M,
    intersect: I,
    granted: Option<AdditionalPermissionProfile>,
    joined: Option<AdditionalPermissionProfile>,
    preapproved: bool,
) -> bool {
    &&& forall|made: Option<AdditionalPermissionProfile>| #[trigger]
        call_ensures(merge, (session, turn), made) ==> made == granted
    &&& forall|made: Option<AdditionalPermissionProfile>| #[trigger]
        call_ensures(
            merge,
            (optional_ref(args.additional_permissions), optional_ref(granted)),
            made,
        ) ==> made == joined
    &&& joined is None || granted is None ==> !preapproved
    &&& joined is Some && granted is Some && give_the_same(joined->0, granted->0) ==> preapproved
    &&& joined is Some && granted is Some && !give_the_same(joined->0, granted->0) ==> forall|
        cwd: &str,
        to_itself: AdditionalPermissionProfile,
        to_granted: AdditionalPermissionProfile,
    |
        cwd@ == args.exec_params.cwd@ && #[trigger] call_ensures(
            intersect,
            (&joined->0, &joined->0, cwd),
            to_itself,
        ) && #[trigger] call_ensures(intersect, (&joined->0, &granted->0, cwd), to_granted)
            ==> preapproved == give_the_same(to_granted, to_itself)
}

/// What a command that stays in the sandbox asks for with the grants added.
proof fn lemma_grants_join<
    M: Fn(
        Option<&AdditionalPermissionProfile>,
        Option<&AdditionalPermissionProfile>,
    ) -> Option<AdditionalPermissionProfile>,
    I: Fn(&AdditionalPermissionProfile, &AdditionalPermissionProfile, &str) -> AdditionalPermissionProfile,
>(
    args: RunExecLikeArgs,
    session: Option<&AdditionalPermissionProfile>,
    turn: Option<&AdditionalPermissionProfile>,
    cwd: &str,
    merge: M,
    intersect: I,
    granted: Option<AdditionalPermissionProfile>,
    joined: Option<AdditionalPermissionProfile>,
    preapproved: bool,
    effective: EffectiveAdditionalPermissions,
)
    requires
        joins_grants(args, session, turn, merge, intersect, granted, joined, preapproved),
        cwd@ == args.exec_params.cwd@,
        !(args.exec_params.sandbox_permissions is RequireEscalated),
        grants_applied(
            effective,
            session,
            turn,
            cwd,
            args.exec_params.sandbox_permissions,
            args.additional_permissions,
            merge,
            intersect,
        ),
    ensures
        effective.additional_permissions == joined,
        effective.permissions_preapproved == preapproved,
        effective.sandbox_permissions == if joined is Some {
            SandboxPermissions::WithAdditionalPermissions
        } else {
            args.exec_params.sandbox_permissions
        },
{
    if joined is Some && granted is Some {
        let e = joined->0;
        let g = granted->0;
        law_profiles_differ_where_a_part_does(e, g);
        if e@ != g@ {
            let (to_itself, to_granted) = choose|
                to_itself: AdditionalPermissionProfile,
                to_granted: AdditionalPermissionProfile,
            |
                {
                    &&& #[trigger] call_ensures(intersect, (&e, &e, cwd), to_itself)
                    &&& #[trigger] call_ensures(intersect, (&e, &g, cwd), to_granted)
                    &&& effective.permissions_preapproved == (to_granted@ == to_itself@)
                };
            law_profiles_differ_where_a_part_does(to_granted, to_itself);
            assert(call_ensures(intersect, (&joined->0, &joined->0, cwd), to_itself));
            assert(call_ensures(intersect, (&joined->0, &granted->0, cwd), to_granted));
        }
    }
}

/// What a command asks for with the grants added, and the permissions that come of
/// it, where the command stays in the sandbox.
proof fn lemma_settled_by<
    M: Fn(
        Option<&AdditionalPermissionProfile>,
        Option<&AdditionalPermissionProfile>,
    ) -> Option<AdditionalPermissionProfile>,
    I: Fn(&AdditionalPermissionProfile, &AdditionalPermissionProfile, &str) -> AdditionalPermissionProfile,
    N: FnOnce(AdditionalPermissionProfile) -> Result<AdditionalPermissionProfile, String>,
>(
    args: RunExecLikeArgs,
    session: Option<&AdditionalPermissionProfile>,
    turn: Option<&AdditionalPermissionProfile>,
    features: PermissionFeatures,
    policy: AskForApproval,
    merge: M,
    intersect: I,
    normalize: N,
    outcome: Result<SettledExec, FunctionCallError>,
    granted: Option<AdditionalPermissionProfile>,
    joined: Option<AdditionalPermissionProfile>,
    preapproved: bool,
) -> (by: (
    EffectiveAdditionalPermissions,
    Result<Option<AdditionalPermissionProfile>, String>,
))
    requires
        is_settled(
            args,
            session,
            turn,
            features,
            policy,
            merge,
            intersect,
            normalize,
            outcome,
        ),
        joins_grants(args, session, turn, merge, intersect, granted, joined, preapproved),
        !(args.exec_params.sandbox_permissions is RequireEscalated),
    ensures
        permissions_are(args, by.0, features, policy, normalize, by.1),
        settles(args, by.0, policy, by.1, outcome),
        by.0.additional_permissions == joined,
        by.0.permissions_preapproved == preapproved,
        by.0.sandbox_permissions == if joined is Some {
            SandboxPermissions::WithAdditionalPermissions
        } else {
            args.exec_params.sandbox_permissions
        },
{
    let (cwd, effective, permissions) = choose|
        cwd: &str,
        effective: EffectiveAdditionalPermissions,
        permissions: Result<Option<AdditionalPermissionProfile>, String>,
    |
        {
            &&& cwd@ == args.exec_params.cwd@
            &&& #[trigger] grants_applied(
                effective,
                session,
                turn,
                cwd,
                args.exec_params.sandbox_permissions,
                args.additional_permissions,
                merge,
                intersect,
            )
            &&& #[trigger] permissions_are(
                args,
                effective,
                features,
                policy,
                normalize,
                permissions,
            )
            &&& settles(args, effective, policy, permissions, outcome)
        };
    lemma_grants_join(
        args,
        session,
        turn,
        cwd,
        merge,
        intersect,
        granted,
        joined,
        preapproved,
        effective,
    );
    (effective, permissions)
}

/// A command that asks for nothing is settled wherever the permissions that it
/// takes over were granted in full, whatever the approval policy and the features
/// say, or where the policy lets them be asked for. It then runs with just these
/// permissions. It is refused otherwise.
pub proof fn law_plain_command_is_settled_with_its_grants<
    M: Fn(
        Option<&AdditionalPermissionProfile>,
        Option<&AdditionalPermissionProfile>,
    ) -> Option<AdditionalPermissionProfile>,
    I: Fn(&AdditionalPermissionProfile, &AdditionalPermissionProfile, &str) -> AdditionalPermissionProfile,
    N: FnOnce(AdditionalPermissionProfile) -> Result<AdditionalPermissionProfile, String>,
>(
    args: RunExecLikeArgs,
    dependency_env: EnvMap,
    set_vars: EnvMap,
    session: Option<&AdditionalPermissionProfile>,
    turn: Option<&AdditionalPermissionProfile>,
    features: PermissionFeatures,
    policy: AskForApproval,
    merge: M,
    intersect: I,
    normalize: N,
    outcome: Result<SettledExec, FunctionCallError>,
    granted: Option<AdditionalPermissionProfile>,
    joined: Option<AdditionalPermissionProfile>,
    preapproved: bool,
)
    requires
        call_ensures(
            RunExecLikeArgs::settle::<M, I, N>,
            (
                args,
                &dependency_env,
                &set_vars,
                session,
                turn,
                features,
                policy,
                merge,
                intersect,
                normalize,
            ),
            outcome,
        ),
        joins_grants(args, session, turn, merge, intersect, granted, joined, preapproved),
        args.exec_params.sandbox_permissions is UseDefault,
        args.additional_permissions is None,
        joined is Some,
    ensures
        outcome is Ok <==> preapproved || policy is OnRequest,
        match outcome {
            Ok(settled) => {
                &&& settled.sandbox_permissions is WithAdditionalPermissions
                &&& settled.permissions_preapproved == preapproved
                &&& settled.additional_permissions is Some
                &&& give_the_same(settled.additional_permissions->0, joined->0)
            },
            Err(FunctionCallError::RespondToModel(message)) => message@ == "approval policy is "@
                + policy_name(policy)
                + "; reject command — you should not ask for escalated permissions if the approval policy is "@
                + policy_name(policy),
        },
{
    let (effective, permissions) = lemma_settled_by(
        args,
        session,
        turn,
        features,
        policy,
        merge,
        intersect,
        normalize,
        outcome,
        granted,
        joined,
        preapproved,
    );
    law_profiles_differ_where_a_part_does(permissions->Ok_0->0, joined->0);
}

/// A command that asks for the default and ends up without additional permissions
/// is always settled, as it is.
pub proof fn law_command_without_permissions_is_settled<
    M: Fn(
        Option<&AdditionalPermissionProfile>,
        Option<&AdditionalPermissionProfile>,
    ) -> Option<AdditionalPermissionProfile>,
    I: Fn(&AdditionalPermissionProfile, &AdditionalPermissionProfile, &str) -> AdditionalPermissionProfile,
    N: FnOnce(AdditionalPermissionProfile) -> Result<AdditionalPermissionProfile, String>,
>(
    args: RunExecLikeArgs,
    dependency_env: EnvMap,
    set_vars: EnvMap,
    session: Option<&AdditionalPermissionProfile>,
    turn: Option<&AdditionalPermissionProfile>,
    features: PermissionFeatures,
    policy: AskForApproval,
    merge: M,
    intersect: I,
    normalize: N,
    outcome: Result<SettledExec, FunctionCallError>,
    granted: Option<AdditionalPermissionProfile>,
    joined: Option<AdditionalPermissionProfile>,
    preapproved: bool,
)
    requires
        call_ensures(
            RunExecLikeArgs::settle::<M, I, N>,
            (
                args,
                &dependency_env,
                &set_vars,
                session,
                turn,
                features,
                policy,
                merge,
                intersect,
                normalize,
            ),
            outcome,
        ),
        joins_grants(args, session, turn, merge, intersect, granted, joined, preapproved),
        args.exec_params.sandbox_permissions is UseDefault,
        joined is None,
    ensures
        match outcome {
            Ok(settled) => {
                &&& settled.sandbox_permissions is UseDefault
                &&& !settled.permissions_preapproved
                &&& settled.additional_permissions is None
            },
            Err(_) => false,
        },
{
    let (effective, permissions) = lemma_settled_by(
        args,
        session,
        turn,
        features,
        policy,
        merge,
        intersect,
        normalize,
        outcome,
        granted,
        joined,
        preapproved,
    );
}

/// A command that asks for permissions itself is settled with what `normalize`
/// makes of them, wherever all of them were granted before, under every approval
/// policy, or the feature is on and the policy lets them be asked for. It is
/// refused otherwise, and where nothing is left of them.
pub proof fn law_asked_permissions_are_granted_or_asked_for<
    M: Fn(
        Option<&AdditionalPermissionProfile>,
        Option<&AdditionalPermissionProfile>,
    ) -> Option<AdditionalPermissionProfile>,
    I: Fn(&AdditionalPermissionProfile, &AdditionalPermissionProfile, &str) -> AdditionalPermissionProfile,
    N: FnOnce(AdditionalPermissionProfile) -> Result<AdditionalPermissionProfile, String>,
>(
    args: RunExecLikeArgs,
    dependency_env: EnvMap,
    set_vars: EnvMap,
    session: Option<&AdditionalPermissionProfile>,
    turn: Option<&AdditionalPermissionProfile>,
    features: PermissionFeatures,
    policy: AskForApproval,
    merge: M,
    intersect: I,
    normalize: N,
    outcome: Result<SettledExec, FunctionCallError>,
    granted: Option<AdditionalPermissionProfile>,
    joined: Option<AdditionalPermissionProfile>,
    preapproved: bool,
)
    requires
        call_ensures(
            RunExecLikeArgs::settle::<M, I, N>,
            (
                args,
                &dependency_env,
                &set_vars,
                session,
                turn,
                features,
                policy,
                merge,
                intersect,
                normalize,
            ),
            outcome,
        ),
        joins_grants(args, session, turn, merge, intersect, granted, joined, preapproved),
        !(args.exec_params.sandbox_permissions is RequireEscalated),
        args.exec_params.sandbox_permissions is WithAdditionalPermissions
            || args.additional_permissions is Some,
        joined is Some,
    ensures
        !preapproved && !features.exec_permission_approvals ==> outcome is Err && responds(
            outcome->Err_0,
            "additional permissions are disabled; enable `features.exec_permission_approvals` before using `with_additional_permissions`"@,
        ),
        !preapproved && features.exec_permission_approvals && !(policy is OnRequest)
            ==> outcome is Err && responds(
            outcome->Err_0,
            "approval policy is "@ + policy_name(policy)
                + "; reject command — you cannot request additional permissions unless the approval policy is OnRequest"@,
        ),
        preapproved || (features.exec_permission_approvals && policy is OnRequest) ==> exists|
            normalized: Result<AdditionalPermissionProfile, String>,
        | #[trigger]
            call_ensures(normalize, (joined->0,), normalized) && match (normalized, outcome) {
                (Ok(profile), Ok(settled)) => {
                    &&& profile.network is Some || profile.file_system is Some
                    &&& settled.additional_permissions == Some(profile)
                    &&& settled.sandbox_permissions is WithAdditionalPermissions
                    &&& settled.permissions_preapproved == preapproved
                },
                (Ok(profile), Err(FunctionCallError::RespondToModel(message))) => {
                    &&& profile.network is None && profile.file_system is None
                    &&& message@
                        == "`additional_permissions` must include at least one requested permission in `network` or `file_system`"@
                },
                (Err(reason), Err(FunctionCallError::RespondToModel(message))) => message@
                    == reason@,
                (Err(_), Ok(_)) => false,
            },
{
    let (effective, permissions) = lemma_settled_by(
        args,
        session,
        turn,
        features,
        policy,
        merge,
        intersect,
        normalize,
        outcome,
        granted,
        joined,
        preapproved,
    );
}

/// A command that asks for the widened sandbox and ends up without permissions is
/// refused.
pub proof fn law_widened_sandbox_needs_permissions<
    M: Fn(
        Option<&AdditionalPermissionProfile>,
        Option<&AdditionalPermissionProfile>,
    ) -> Option<AdditionalPermissionProfile>,
    I: Fn(&AdditionalPermissionProfile, &AdditionalPermissionProfile, &str) -> AdditionalPermissionProfile,
    N: FnOnce(AdditionalPermissionProfile) -> Result<AdditionalPermissionProfile, String>,
>(
    args: RunExecLikeArgs,
    dependency_env: EnvMap,
    set_vars: EnvMap,
    session: Option<&AdditionalPermissionProfile>,
    turn: Option<&AdditionalPermissionProfile>,
    features: PermissionFeatures,
    policy: AskForApproval,
    merge: M,
    intersect: I,
    normalize: N,
    outcome: Result<SettledExec, FunctionCallError>,
    granted: Option<AdditionalPermissionProfile>,
    joined: Option<AdditionalPermissionProfile>,
    preapproved: bool,
)
    requires
        call_ensures(
            RunExecLikeArgs::settle::<M, I, N>,
            (
                args,
                &dependency_env,
                &set_vars,
                session,
                turn,
                features,
                policy,
                merge,
                intersect,
                normalize,
            ),
            outcome,
        ),
        joins_grants(args, session, turn, merge, intersect, granted, joined, preapproved),
        args.exec_params.sandbox_permissions is WithAdditionalPermissions,
        joined is None,
    ensures
        outcome is Err,
        !features.exec_permission_approvals ==> responds(
            outcome->Err_0,
            "additional permissions are disabled; enable `features.exec_permission_approvals` before using `with_additional_permissions`"@,
        ),
        features.exec_permission_approvals && !(policy is OnRequest) ==> responds(
            outcome->Err_0,
            "approval policy is "@ + policy_name(policy)
                + "; reject command — you cannot request additional permissions unless the approval policy is OnRequest"@,
        ),
        features.exec_permission_approvals && policy is OnRequest ==> responds(
            outcome->Err_0,
            "missing `additional_permissions`; provide at least one of `network` or `file_system` when using `with_additional_permissions`"@,
        ),
{
    let (effective, permissions) = lemma_settled_by(
        args,
        session,
        turn,
        features,
        policy,
        merge,
        intersect,
        normalize,
        outcome,
        granted,
        joined,
        preapproved,
    );
}

/// A command that is to run outside the sandbox is settled exactly where the
/// approval policy lets that be asked for and it brings no permissions, whatever
/// was granted before. It then runs outside the sandbox, and nothing of it counts
/// as granted.
pub proof fn law_escalated_command_needs_the_policy<
    M: Fn(
        Option<&AdditionalPermissionProfile>,
        Option<&AdditionalPermissionProfile>,
    ) -> Option<AdditionalPermissionProfile>,
    I: Fn(&AdditionalPermissionProfile, &AdditionalPermissionProfile, &str) -> AdditionalPermissionProfile,
    N: FnOnce(AdditionalPermissionProfile) -> Result<AdditionalPermissionProfile, String>,
>(
    args: RunExecLikeArgs,
    dependency_env: EnvMap,
    set_vars: EnvMap,
    session: Option<&AdditionalPermissionProfile>,
    turn: Option<&AdditionalPermissionProfile>,
    features: PermissionFeatures,
    policy: AskForApproval,
    merge: M,
    intersect: I,
    normalize: N,
    outcome: Result<SettledExec, FunctionCallError>,
)
    requires
        call_ensures(
            RunExecLikeArgs::settle::<M, I, N>,
            (
                args,
                &dependency_env,
                &set_vars,
                session,
                turn,
                features,
                policy,
                merge,
                intersect,
                normalize,
            ),
            outcome,
        ),
        args.exec_params.sandbox_permissions is RequireEscalated,
    ensures
        outcome is Ok <==> policy is OnRequest && args.additional_permissions is None,
        match outcome {
            Ok(settled) => {
                &&& settled.sandbox_permissions is RequireEscalated
                &&& !settled.permissions_preapproved
                &&& settled.additional_permissions is None
            },
            Err(FunctionCallError::RespondToModel(message)) => message@
                == if args.additional_permissions is None {
                "approval policy is "@ + policy_name(policy)
                    + "; reject command — you should not ask for escalated permissions if the approval policy is "@
                    + policy_name(policy)
            } else if features.exec_permission_approvals {
                "`additional_permissions` requires `sandbox_permissions` set to `with_additional_permissions`"@
            } else {
                "additional permissions are disabled; enable `features.exec_permission_approvals` before using `with_additional_permissions`"@
            },
        },
{
}

/// A settled command is the one that was asked for, run in the same way. A variable
/// of its environment is one of the session's dependencies or else one of its own,
/// and a variable among the overrides is one of the dependencies or else one that
/// the policy sets.
pub proof fn law_settled_command_is_the_one_asked_for<
    M: Fn(
        Option<&AdditionalPermissionProfile>,
        Option<&AdditionalPermissionProfile>,
    ) -> Option<AdditionalPermissionProfile>,
    I: Fn(&AdditionalPermissionProfile, &AdditionalPermissionProfile, &str) -> AdditionalPermissionProfile,
    N: FnOnce(AdditionalPermissionProfile) -> Result<AdditionalPermissionProfile, String>,
>(
    args: RunExecLikeArgs,
    dependency_env: EnvMap,
    set_vars: EnvMap,
    session: Option<&AdditionalPermissionProfile>,
    turn: Option<&AdditionalPermissionProfile>,
    features: PermissionFeatures,
    policy: AskForApproval,
    merge: M,
    intersect: I,
    normalize: N,
    settled: SettledExec,
    name: Seq<char>,
)
    requires
        call_ensures(
            RunExecLikeArgs::settle::<M, I, N>,
            (
                args,
                &dependency_env,
                &set_vars,
                session,
                turn,
                features,
                policy,
                merge,
                intersect,
                normalize,
            ),
            Ok(settled),
        ),
    ensures
        settled.exec_params.command == args.exec_params.command,
        settled.exec_params.cwd == args.exec_params.cwd,
        settled.exec_params.timeout_ms == args.exec_params.timeout_ms,
        settled.exec_params.capture_policy == args.exec_params.capture_policy,
        settled.exec_params.network == args.exec_params.network,
        settled.exec_params.sandbox_permissions == args.exec_params.sandbox_permissions,
        settled.exec_params.windows_sandbox_level == args.exec_params.windows_sandbox_level,
        settled.exec_params.windows_sandbox_private_desktop
            == args.exec_params.windows_sandbox_private_desktop,
        settled.exec_params.justification == args.exec_params.justification,
        settled.exec_params.arg0 == args.exec_params.arg0,
        settled.tool_name == args.tool_name,
        settled.hook_command == args.hook_command,
        settled.environment == args.environment,
        settled.remote_execution_enabled == args.remote_execution_enabled,
        settled.exec_server_env_config == args.exec_server_env_config,
        settled.prefix_rule == args.prefix_rule,
        settled.call_id == args.call_id,
        settled.freeform == args.freeform,
        settled.shell_runtime_backend == args.shell_runtime_backend,
        settled.exec_params.env@.contains_key(name) <==> dependency_env@.contains_key(name)
            || args.exec_params.env@.contains_key(name),
        settled.exec_params.env@.contains_key(name) ==> settled.exec_params.env@[name]
            == if dependency_env@.contains_key(name) {
            dependency_env@[name]
        } else {
            args.exec_params.env@[name]
        },
        settled.explicit_env_overrides@.contains_key(name) <==> dependency_env@.contains_key(name)
            || set_vars@.contains_key(name),
        settled.explicit_env_overrides@.contains_key(name)
            ==> settled.explicit_env_overrides@[name] == if dependency_env@.contains_key(name) {
            dependency_env@[name]
        } else {
            set_vars@[name]
        },
{
}

/// The execution policy is asked about the settled command in its directory.
/// Permissions that were granted before are not asked for again; all others are
/// asked for as they are.
pub proof fn law_granted_permissions_are_not_asked_for_again(
    settled: SettledExec,
    turn: TurnPolicies,
    request: ExecApprovalRequest<'_>,
)
    requires
        call_ensures(SettledExec::approval_request, (&settled, turn), request),
    ensures
        settled.permissions_preapproved ==> request.sandbox_permissions is UseDefault,
        !settled.permissions_preapproved ==> request.sandbox_permissions
            == settled.sandbox_permissions,
        request.command@ == settled.exec_params.command@,
        request.sandbox_cwd@ == settled.exec_params.cwd@,
        *request.prefix_rule == settled.prefix_rule,
        request.approval_policy == turn.approval_policy,
        request.permission_profile == turn.permission_profile,
        request.file_system_sandbox_policy == turn.file_system_sandbox_policy,
{
}

/// The request to the runtime asks for what was settled and nothing else, within
/// the time limit that stands for the one asked for.
pub proof fn law_request_asks_for_what_was_settled<T: FnOnce(Option<u64>) -> Option<u64>>(
    settled: SettledExec,
    requirement: ExecApprovalRequirement,
    time_limit: T,
    request: ShellRequest,
)
    requires
        call_ensures(
            SettledExec::into_request::<T>,
            (settled, requirement, time_limit),
            request,
        ),
    ensures
        request.command@ == settled.exec_params.command@,
        request.hook_command@ == settled.hook_command@,
        request.cwd@ == settled.exec_params.cwd@,
        request.environment == settled.environment,
        request.remote_execution_enabled == settled.remote_execution_enabled,
        call_ensures(time_limit, (settled.exec_params.timeout_ms,), request.timeout_ms),
        request.env@ == settled.exec_params.env@,
        request.exec_server_env_config == settled.exec_server_env_config,
        request.explicit_env_overrides@ == settled.explicit_env_overrides@,
        request.network == settled.exec_params.network,
        request.sandbox_permissions == settled.sandbox_permissions,
        request.additional_permissions == settled.additional_permissions,
        request.additional_permissions_preapproved == settled.permissions_preapproved,
        request.justification == settled.exec_params.justification,
        request.exec_approval_requirement == requirement,
{
}

/// A command that has run is a success with what is shown of it; hooks are told its
/// output as text exactly where it has run to its end. What went wrong is handed
/// on.
pub proof fn law_finished_command_is_a_success(
    finished: Result<String, FunctionCallError>,
    formatted: Option<String>,
    output: Result<FunctionToolOutput, FunctionCallError>,
)
    requires
        call_ensures(exec_like_output, (finished, formatted), output),
    ensures
        match finished {
            Ok(content) => {
                &&& output is Ok
                &&& output->Ok_0.text@ == content@
                &&& output->Ok_0.success == Some(true)
                &&& output->Ok_0.post_tool_use_response is Some <==> formatted is Some
                &&& formatted is Some ==> json_text(output->Ok_0.post_tool_use_response->0) == Some(
                    formatted->0@,
                )
            },
            Err(reason) => output == Err::<FunctionToolOutput, FunctionCallError>(reason),
        },
{
}

/// A command runs in the way that it was asked for.
pub proof fn law_runtime_keeps_its_backend(backend: ShellRuntimeBackend, runtime: ShellRuntime)
    requires
        call_ensures(runtime_for, (backend,), runtime),
    ensures
        runtime.backend == backend,
{
}

} // verus!
