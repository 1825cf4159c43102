//! The shell runtime: what has to be approved before a command runs.

use crate::exec::{clone_optional_strings, clone_strings, words_view, NetworkRef};
use crate::profile::{
    clone_profile, give_the_same, law_profiles_differ_where_a_part_does, profile_view,
    AdditionalPermissionProfile, SandboxPermissions,
};
use crate::shell::HookToolName;
use crate::shell_request::{ExecApprovalRequirement, ShellRequest, ShellRuntimeBackend};
use vstd::prelude::*;

verus! {

/// Runs shell commands.
pub struct ShellRuntime {
    pub backend: ShellRuntimeBackend,
}

/// Which sandbox a tool prefers.
#[derive(Clone, Copy, Debug, PartialEq, Eq, Structural)]
pub enum SandboxablePreference {
    Auto,
    Require,
    Forbid,
}

/// The place that a command's output is streamed to.
pub struct StdoutStream {
    pub sub_id: String,
    pub call_id: String,
}

/// What an approval is remembered by.
pub struct ApprovalKey {
    pub command: Vec<String>,
    pub cwd: String,
    pub sandbox_permissions: SandboxPermissions,
    pub additional_permissions: Option<AdditionalPermissionProfile>,
}

/// The network access that an approval is about, which the host keeps under a
/// number.
#[derive(Clone, Copy, Debug, PartialEq, Eq, Structural)]
pub struct NetworkApprovalContext {
    pub number: u64,
}

/// The circumstances in which an approval is asked for.
pub struct ApprovalCtx {
    pub call_id: String,
    /// The review that decides in the user's place, if one does.
    pub guardian_review_id: Option<String>,
    /// Why the command is tried again, if it is.
    pub retry_reason: Option<String>,
    pub network_approval_context: Option<NetworkApprovalContext>,
}

/// A command that a review is asked to decide on.
pub struct GuardianShellRequest {
    pub id: String,
    pub command: Vec<String>,
    pub cwd: String,
    pub sandbox_permissions: SandboxPermissions,
    pub additional_permissions: Option<AdditionalPermissionProfile>,
    pub justification: Option<String>,
}

/// A command that the user is asked to decide on.
pub struct CommandApprovalPrompt {
    pub call_id: String,
    pub command: Vec<String>,
    pub cwd: String,
    pub reason: Option<String>,
    pub network_approval_context: Option<NetworkApprovalContext>,
    pub proposed_execpolicy_amendment: Option<Vec<String>>,
    pub additional_permissions: Option<AdditionalPermissionProfile>,
}

/// Who decides on a command.
pub enum ApprovalRoute {
    /// The review with the given id.
    Guardian {
        review_id: String,
        request: GuardianShellRequest,
        retry_reason: Option<String>,
    },
    /// The user, unless each of the keys was approved before. The approvals of
    /// one kind of tool are remembered together.
    Cached { tool: &'static str, keys: Vec<ApprovalKey>, prompt: CommandApprovalPrompt },
}

/// What hooks are told when a permission is asked for.
pub struct PermissionRequestPayload {
    pub tool_name: HookToolName,
    pub command: String,
    pub description: Option<String>,
}

/// When access to the network is approved.
#[derive(Clone, Copy, Debug, PartialEq, Eq, Structural)]
pub enum NetworkApprovalMode {
    Immediate,
    Deferred,
}

/// The command that wants access to the network.
pub struct GuardianNetworkAccessTrigger {
    pub call_id: String,
    pub tool_name: String,
    pub command: Vec<String>,
    pub cwd: String,
    pub sandbox_permissions: SandboxPermissions,
    pub additional_permissions: Option<AdditionalPermissionProfile>,
    pub justification: Option<String>,
    pub tty: Option<bool>,
}

/// How a command's access to the network is approved.
pub struct NetworkApprovalSpec {
    pub network: Option<NetworkRef>,
    pub mode: NetworkApprovalMode,
    pub trigger: GuardianNetworkAccessTrigger,
    pub command: String,
}

/// The key stands for the request, with its command in the form that approvals
/// are remembered by.
pub open spec fn is_key_of<C: Fn(&Vec<String>) -> Vec<String>>(
    key: ApprovalKey,
    request: ShellRequest,
    canonicalize: C,
) -> bool {
    &&& call_ensures(canonicalize, (&request.command,), key.command)
    &&& key.cwd == request.cwd
    &&& key.sandbox_permissions == request.sandbox_permissions
    &&& profile_view(key.additional_permissions) == profile_view(request.additional_permissions)
}

/// The reason that the user is given: why the command is tried again, or else
/// what the command gives as its own.
pub open spec fn approval_reason(retry: Option<String>, justification: Option<String>) -> Option<
    String,
> {
    match retry {
        Some(_) => retry,
        None => justification,
    }
}

/// The review is asked about the request.
pub open spec fn reviews(
    asked: GuardianShellRequest,
    request: ShellRequest,
    ctx: ApprovalCtx,
) -> bool {
    &&& asked.id == ctx.call_id
    &&& asked.command@ == request.command@
    &&& asked.cwd == request.cwd
    &&& asked.sandbox_permissions == request.sandbox_permissions
    &&& profile_view(asked.additional_permissions) == profile_view(request.additional_permissions)
    &&& asked.justification == request.justification
}

/// The user is asked about the request.
pub open spec fn prompts(
    asked: CommandApprovalPrompt,
    request: ShellRequest,
    ctx: ApprovalCtx,
) -> bool {
    &&& asked.call_id == ctx.call_id
    &&& asked.command@ == request.command@
    &&& asked.cwd == request.cwd
    &&& asked.reason == approval_reason(ctx.retry_reason, request.justification)
    &&& asked.network_approval_context == ctx.network_approval_context
    &&& words_view(asked.proposed_execpolicy_amendment) == words_view(
        request.exec_approval_requirement.proposed_execpolicy_amendment,
    )
    &&& profile_view(asked.additional_permissions) == profile_view(request.additional_permissions)
}

impl Default for ShellRuntime {
    fn default() -> (runtime: ShellRuntime)
        ensures
            runtime.backend == ShellRuntimeBackend::Generic,
    {
        ShellRuntime { backend: ShellRuntimeBackend::default() }
    }
}

impl ShellRuntime {
    /// The runtime of the generic `shell` tool.
    pub fn new() -> (runtime: ShellRuntime)
        ensures
            runtime.backend == ShellRuntimeBackend::Generic,
    {
        ShellRuntime { backend: ShellRuntimeBackend::Generic }
    }

    /// The runtime of the `shell_command` tool.
    pub fn for_shell_command(backend: ShellRuntimeBackend) -> (runtime: ShellRuntime)
        ensures
            runtime.backend == backend,
    {
        ShellRuntime { backend }
    }

    /// The place that the output of a call's command is streamed to.
    pub fn stdout_stream(sub_id: &String, call_id: &String) -> (stream: Option<StdoutStream>)
        ensures
            stream == Some((StdoutStream { sub_id: *sub_id, call_id: *call_id })),
    {
        Some(StdoutStream { sub_id: sub_id.clone(), call_id: call_id.clone() })
    }

    /// The sandbox is left to the configuration.
    pub fn sandbox_preference(&self) -> (preference: SandboxablePreference)
        ensures
            preference == SandboxablePreference::Auto,
    {
        SandboxablePreference::Auto
    }

    /// A command that the sandbox stops is tried again outside it.
    pub fn escalate_on_failure(&self) -> (yes: bool)
        ensures
            yes,
    {
        true
    }

    /// What an approval of the request is remembered by. `canonicalize` brings a
    /// command into the form that approvals are remembered by.
    pub fn approval_keys<C: Fn(&Vec<String>) -> Vec<String>>(
        &self,
        request: &ShellRequest,
        canonicalize: C,
    ) -> (keys: Vec<ApprovalKey>)
        requires
            call_requires(canonicalize, (&request.command,)),
        ensures
            keys@.len() == 1,
            is_key_of(keys@[0], *request, canonicalize),
    {
        let mut keys: Vec<ApprovalKey> = Vec::new();
        keys.push(
            ApprovalKey {
                command: canonicalize(&request.command),
                cwd: request.cwd.clone(),
                sandbox_permissions: request.sandbox_permissions,
                additional_permissions: clone_profile(&request.additional_permissions),
            },
        );
        keys
    }

    /// Who decides on the request: a review where one is at work, else the user.
    pub fn start_approval<C: Fn(&Vec<String>) -> Vec<String>>(
        &self,
        request: &ShellRequest,
        ctx: &ApprovalCtx,
        canonicalize: C,
    ) -> (route: ApprovalRoute)
        requires
            call_requires(canonicalize, (&request.command,)),
        ensures
            match (ctx.guardian_review_id, route) {
                (
                    Some(id),
                    ApprovalRoute::Guardian { review_id, request: asked, retry_reason },
                ) => {
                    &&& review_id == id
                    &&& reviews(asked, *request, *ctx)
                    &&& retry_reason == ctx.retry_reason
                },
                (None, ApprovalRoute::Cached { tool, keys, prompt }) => {
                    &&& tool@ == "shell"@
                    &&& keys@.len() == 1
                    &&& is_key_of(keys@[0], *request, canonicalize)
                    &&& prompts(prompt, *request, *ctx)
                },
                _ => false,
            },
    {
        let keys = self.approval_keys(request, canonicalize);
        let reason = match &ctx.retry_reason {
            Some(_) => ctx.retry_reason.clone(),
            None => request.justification.clone(),
        };
        match &ctx.guardian_review_id {
            Some(review_id) => ApprovalRoute::Guardian {
                review_id: review_id.clone(),
                request: GuardianShellRequest {
                    id: ctx.call_id.clone(),
                    command: clone_strings(&request.command),
                    cwd: request.cwd.clone(),
                    sandbox_permissions: request.sandbox_permissions,
                    additional_permissions: clone_profile(&request.additional_permissions),
                    justification: request.justification.clone(),
                },
                retry_reason: ctx.retry_reason.clone(),
            },
            None => ApprovalRoute::Cached {
                tool: "shell",
                keys,
                prompt: CommandApprovalPrompt {
                    call_id: ctx.call_id.clone(),
                    command: clone_strings(&request.command),
                    cwd: request.cwd.clone(),
                    reason,
                    network_approval_context: ctx.network_approval_context,
                    proposed_execpolicy_amendment: clone_optional_strings(
                        &request.exec_approval_requirement.proposed_execpolicy_amendment,
                    ),
                    additional_permissions: clone_profile(&request.additional_permissions),
                },
            },
        }
    }

    /// What has to be approved before the request is run.
    pub fn exec_approval_requirement(&self, request: &ShellRequest) -> (requirement: Option<
        ExecApprovalRequirement,
    >)
        ensures
            requirement is Some,
            requirement->0.same_as(request.exec_approval_requirement),
    {
        Some(request.exec_approval_requirement.clone())
    }

    /// What hooks are told when a permission is asked for.
    pub fn permission_request_payload(&self, request: &ShellRequest) -> (payload: Option<
        PermissionRequestPayload,
    >)
        ensures
            payload == Some(
                (PermissionRequestPayload {
                    tool_name: HookToolName::Bash,
                    command: request.hook_command,
                    description: request.justification,
                }),
            ),
    {
        Some(
            PermissionRequestPayload {
                tool_name: HookToolName::Bash,
                command: request.hook_command.clone(),
                description: request.justification.clone(),
            },
        )
    }

    /// The sandbox of the first attempt, which `choose_sandbox` chooses by what
    /// the command asks for and what has to be approved.
    pub fn sandbox_mode_for_first_attempt<
        O,
        F: FnOnce(SandboxPermissions, &ExecApprovalRequirement) -> O,
    >(&self, request: &ShellRequest, choose_sandbox: F) -> (mode: O)
        requires
            call_requires(
                choose_sandbox,
                (request.sandbox_permissions, &request.exec_approval_requirement),
            ),
        ensures
            call_ensures(
                choose_sandbox,
                (request.sandbox_permissions, &request.exec_approval_requirement),
                mode,
            ),
    {
        choose_sandbox(request.sandbox_permissions, &request.exec_approval_requirement)
    }

    /// The directory that the sandbox is laid around.
    pub fn sandbox_cwd<'a>(&self, request: &'a ShellRequest) -> (cwd: Option<&'a String>)
        ensures
            cwd == Some(&request.cwd),
    {
        Some(&request.cwd)
    }

    /// How the request's access to the network is approved, where it goes
    /// through a proxy. `managed_network` is the proxy that a command with the
    /// given permissions goes through.
    pub fn network_approval_spec<
        M: FnOnce(Option<NetworkRef>, SandboxPermissions) -> Option<NetworkRef>,
    >(
        &self,
        request: &ShellRequest,
        call_id: &String,
        tool_name: &String,
        managed_network: M,
    ) -> (approval: Option<NetworkApprovalSpec>)
        requires
            call_requires(managed_network, (request.network, request.sandbox_permissions)),
        ensures
            match approval {
                Some(how) => {
                    &&& how.network is Some
                    &&& call_ensures(
                        managed_network,
                        (request.network, request.sandbox_permissions),
                        how.network,
                    )
                    &&& how.mode == NetworkApprovalMode::Immediate
                    &&& how.trigger.call_id == call_id
                    &&& how.trigger.tool_name == tool_name
                    &&& how.trigger.command@ == request.command@
                    &&& how.trigger.cwd == request.cwd
                    &&& how.trigger.sandbox_permissions == request.sandbox_permissions
                    &&& profile_view(how.trigger.additional_permissions) == profile_view(
                        request.additional_permissions,
                    )
                    &&& how.trigger.justification == request.justification
                    &&& how.trigger.tty is None
                    &&& how.command == request.hook_command
                },
                None => call_ensures(
                    managed_network,
                    (request.network, request.sandbox_permissions),
                    None,
                ),
            },
    {
        let network = managed_network(request.network, request.sandbox_permissions);
        match network {
            None => None,
            Some(_) => Some(
                NetworkApprovalSpec {
                    network,
                    mode: NetworkApprovalMode::Immediate,
                    trigger: GuardianNetworkAccessTrigger {
                        call_id: call_id.clone(),
                        tool_name: tool_name.clone(),
                        command: clone_strings(&request.command),
                        cwd: request.cwd.clone(),
                        sandbox_permissions: request.sandbox_permissions,
                        additional_permissions: clone_profile(&request.additional_permissions),
                        justification: request.justification.clone(),
                        tty: None,
                    },
                    command: request.hook_command.clone(),
                },
            ),
        }
    }
}

/// An approval is remembered by one key: the command in the form that approvals are
/// remembered by, its directory, and what it asks of the sandbox with all its
/// permissions.
pub proof fn law_approval_is_remembered_by_the_whole_request<C: Fn(&Vec<String>) -> Vec<String>>(
    runtime: ShellRuntime,
    request: ShellRequest,
    canonicalize: C,
    keys: Vec<ApprovalKey>,
)
    requires
        call_ensures(
            ShellRuntime::approval_keys::<C>,
            (&runtime, &request, canonicalize),
            keys,
        ),
    ensures
        keys@.len() == 1,
        call_ensures(canonicalize, (&request.command,), keys@[0].command),
        keys@[0].cwd@ == request.cwd@,
        keys@[0].sandbox_permissions == request.sandbox_permissions,
        gives_as_asked(keys@[0].additional_permissions, request.additional_permissions),
{
    lemma_gives_as_asked(keys@[0].additional_permissions, request.additional_permissions);
}

/// The permissions are the ones that are asked for, and none where none are.
pub open spec fn gives_as_asked(
    given: Option<AdditionalPermissionProfile>,
    asked: Option<AdditionalPermissionProfile>,
) -> bool {
    match (given, asked) {
        (Some(g), Some(a)) => give_the_same(g, a),
        (None, None) => true,
        _ => false,
    }
}

/// Permissions that say the same give the same.
pub proof fn lemma_gives_as_asked(
    given: Option<AdditionalPermissionProfile>,
    asked: Option<AdditionalPermissionProfile>,
)
    ensures
        profile_view(given) == profile_view(asked) <==> gives_as_asked(given, asked),
{
    if let (Some(g), Some(a)) = (given, asked) {
        law_profiles_differ_where_a_part_does(g, a);
    }
}

/// A review decides exactly where one is at work, and it is asked about the request
/// with its own justification. Else the user is asked, unless the key of the
/// request was approved before, and is given why the command is tried again, or
/// else the command's own justification.
pub proof fn law_review_decides_where_it_is_at_work<C: Fn(&Vec<String>) -> Vec<String>>(
    runtime: ShellRuntime,
    request: ShellRequest,
    ctx: ApprovalCtx,
    canonicalize: C,
    route: ApprovalRoute,
)
    requires
        call_ensures(
            ShellRuntime::start_approval::<C>,
            (&runtime, &request, &ctx, canonicalize),
            route,
        ),
    ensures
        route is Guardian <==> ctx.guardian_review_id is Some,
        match route {
            ApprovalRoute::Guardian { review_id, request: asked, retry_reason } => {
                &&& review_id@ == ctx.guardian_review_id->0@
                &&& asked.id@ == ctx.call_id@
                &&& asked.command@ == request.command@
                &&& asked.cwd@ == request.cwd@
                &&& asked.sandbox_permissions == request.sandbox_permissions
                &&& gives_as_asked(asked.additional_permissions, request.additional_permissions)
                &&& asked.justification == request.justification
                &&& retry_reason == ctx.retry_reason
            },
            ApprovalRoute::Cached { tool, keys, prompt } => {
                &&& tool@ == "shell"@
                &&& keys@.len() == 1
                &&& call_ensures(canonicalize, (&request.command,), keys@[0].command)
                &&& keys@[0].cwd@ == request.cwd@
                &&& keys@[0].sandbox_permissions == request.sandbox_permissions
                &&& gives_as_asked(keys@[0].additional_permissions, request.additional_permissions)
                &&& prompt.call_id@ == ctx.call_id@
                &&& prompt.command@ == request.command@
                &&& prompt.cwd@ == request.cwd@
                &&& ctx.retry_reason is Some ==> prompt.reason == ctx.retry_reason
                &&& ctx.retry_reason is None ==> prompt.reason == request.justification
                &&& prompt.network_approval_context == ctx.network_approval_context
                &&& gives_as_asked(prompt.additional_permissions, request.additional_permissions)
                &&& prompt.proposed_execpolicy_amendment is Some
                    <==> request.exec_approval_requirement.proposed_execpolicy_amendment is Some
                &&& prompt.proposed_execpolicy_amendment is Some
                    ==> prompt.proposed_execpolicy_amendment->0@
                    == request.exec_approval_requirement.proposed_execpolicy_amendment->0@
            },
        },
{
    match route {
        ApprovalRoute::Guardian { request: asked, .. } => {
            lemma_gives_as_asked(asked.additional_permissions, request.additional_permissions);
        },
        ApprovalRoute::Cached { keys, prompt, .. } => {
            lemma_gives_as_asked(keys@[0].additional_permissions, request.additional_permissions);
            lemma_gives_as_asked(prompt.additional_permissions, request.additional_permissions);
        },
    }
}

/// What has to be approved is what the request says, with the rule that it proposes.
pub proof fn law_request_says_what_has_to_be_approved(
    runtime: ShellRuntime,
    request: ShellRequest,
    requirement: Option<ExecApprovalRequirement>,
)
    requires
        call_ensures(ShellRuntime::exec_approval_requirement, (&runtime, &request), requirement),
    ensures
        requirement is Some,
        requirement->0.number == request.exec_approval_requirement.number,
        requirement->0.proposed_execpolicy_amendment is Some
            <==> request.exec_approval_requirement.proposed_execpolicy_amendment is Some,
        requirement->0.proposed_execpolicy_amendment is Some
            ==> requirement->0.proposed_execpolicy_amendment->0@
            == request.exec_approval_requirement.proposed_execpolicy_amendment->0@,
{
}

/// Hooks are told the command as they see it and its justification whenever a
/// permission is asked for.
pub proof fn law_hooks_are_told_of_permission_requests(
    runtime: ShellRuntime,
    request: ShellRequest,
    payload: Option<PermissionRequestPayload>,
)
    requires
        call_ensures(ShellRuntime::permission_request_payload, (&runtime, &request), payload),
    ensures
        payload is Some,
        payload->0.tool_name is Bash,
        payload->0.command@ == request.hook_command@,
        payload->0.description == request.justification,
{
}

/// Access to the network is approved at once, and exactly where the command goes
/// through a proxy. The approval is about the command as it was asked for.
pub proof fn law_network_is_approved_where_it_is_proxied<
    M: FnOnce(Option<NetworkRef>, SandboxPermissions) -> Option<NetworkRef>,
>(
    runtime: ShellRuntime,
    request: ShellRequest,
    call_id: String,
    tool_name: String,
    managed_network: M,
    approval: Option<NetworkApprovalSpec>,
    proxy: Option<NetworkRef>,
)
    requires
        call_ensures(
            ShellRuntime::network_approval_spec::<M>,
            (&runtime, &request, &call_id, &tool_name, managed_network),
            approval,
        ),
        forall|goes: Option<NetworkRef>| #[trigger]
            call_ensures(managed_network, (request.network, request.sandbox_permissions), goes)
                ==> goes == proxy,
    ensures
        approval is Some <==> proxy is Some,
        approval is Some ==> {
            let how = approval->0;
            &&& how.network == proxy
            &&& how.mode is Immediate
            &&& how.command@ == request.hook_command@
            &&& how.trigger.call_id@ == call_id@
            &&& how.trigger.tool_name@ == tool_name@
            &&& how.trigger.command@ == request.command@
            &&& how.trigger.cwd@ == request.cwd@
            &&& how.trigger.sandbox_permissions == request.sandbox_permissions
            &&& gives_as_asked(how.trigger.additional_permissions, request.additional_permissions)
            &&& how.trigger.justification == request.justification
            &&& how.trigger.tty is None
        },
{
    if approval is Some {
        lemma_gives_as_asked(
            approval->0.trigger.additional_permissions,
            request.additional_permissions,
        );
    }
}

/// The sandbox is left to the configuration and laid around the directory of the
/// command. A command that it stops is tried again outside it, and the output goes
/// to the call.
pub proof fn law_sandbox_is_tried_first(
    runtime: ShellRuntime,
    request: ShellRequest,
    preference: SandboxablePreference,
    escalates: bool,
    cwd: Option<&String>,
    sub_id: String,
    call_id: String,
    stream: Option<StdoutStream>,
)
    requires
        call_ensures(ShellRuntime::sandbox_preference, (&runtime,), preference),
        call_ensures(ShellRuntime::escalate_on_failure, (&runtime,), escalates),
        call_ensures(ShellRuntime::sandbox_cwd, (&runtime, &request), cwd),
        call_ensures(ShellRuntime::stdout_stream, (&sub_id, &call_id), stream),
    ensures
        preference is Auto,
        escalates,
        cwd is Some && cwd->0@ == request.cwd@,
        stream is Some && stream->0.sub_id@ == sub_id@ && stream->0.call_id@ == call_id@,
{
}

/// The sandbox of the first attempt is chosen by what the command asks for and what
/// has to be approved, as they are.
pub proof fn law_first_sandbox_is_chosen_by_the_request<
    O,
    F: FnOnce(SandboxPermissions, &ExecApprovalRequirement) -> O,
>(runtime: ShellRuntime, request: ShellRequest, choose_sandbox: F, mode: O)
    requires
        call_ensures(
            ShellRuntime::sandbox_mode_for_first_attempt::<O, F>,
            (&runtime, &request, choose_sandbox),
            mode,
        ),
    ensures
        call_ensures(
            choose_sandbox,
            (request.sandbox_permissions, &request.exec_approval_requirement),
            mode,
        ),
{
}

/// A runtime runs commands in the way that it was made for; without one it is that
/// of the generic tool.
pub proof fn law_runtime_is_generic_unless_told(
    generic: ShellRuntime,
    backend: ShellRuntimeBackend,
    told: ShellRuntime,
)
    requires
        call_ensures(ShellRuntime::new, (), generic),
        call_ensures(ShellRuntime::for_shell_command, (backend,), told),
    ensures
        generic.backend is Generic,
        told.backend == backend,
{
}

} // verus!
