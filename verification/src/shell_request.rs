//! Requests to run a shell command.

use crate::env_map::EnvMap;
use crate::exec::{clone_optional_strings, words_view, ExecParams, ExecServerEnvConfig, NetworkRef};
use crate::profile::{AdditionalPermissionProfile, SandboxPermissions};
use vstd::prelude::*;

verus! {

/// Selects the behaviour of the shell runtime for its different callers.
///
/// `Generic` is not the same as `ShellCommandClassic`: it means that nothing
/// particular to the `shell_command` tool happens, and the generic `shell` tool
/// uses it. The other two are for the `shell_command` tools alone.
#[derive(Clone, Copy, Debug, PartialEq, Eq, Structural)]
pub enum ShellRuntimeBackend {
    /// The path for every tool.
    Generic,
    /// The `shell_command` tool on the standard path.
    ShellCommandClassic,
    /// The `shell_command` tool by way of a forked zsh, with the standard path
    /// where that cannot be had.
    ShellCommandZshFork,
}

impl Default for ShellRuntimeBackend {
    fn default() -> (backend: ShellRuntimeBackend)
        ensures
            backend == ShellRuntimeBackend::Generic,
    {
        ShellRuntimeBackend::Generic
    }
}

/// An environment of the turn, by its place in the turn's list.
#[derive(Clone, Copy, Debug, PartialEq, Eq, Structural)]
pub struct EnvironmentRef {
    pub index: usize,
    pub is_remote: bool,
}

/// What has to be approved before a command runs. The host keeps it under a
/// number; a rule that would approve such commands may be proposed with it.
pub struct ExecApprovalRequirement {
    pub number: u64,
    pub proposed_execpolicy_amendment: Option<Vec<String>>,
}

impl ExecApprovalRequirement {
    /// The two requirements are the same.
    pub open spec fn same_as(self, other: ExecApprovalRequirement) -> bool {
        &&& self.number == other.number
        &&& words_view(self.proposed_execpolicy_amendment) == words_view(
            other.proposed_execpolicy_amendment,
        )
    }
}

impl Clone for ExecApprovalRequirement {
    fn clone(&self) -> (copy: ExecApprovalRequirement)
        ensures
            copy.same_as(*self),
    {
        ExecApprovalRequirement {
            number: self.number,
            proposed_execpolicy_amendment: clone_optional_strings(
                &self.proposed_execpolicy_amendment,
            ),
        }
    }
}

/// A command that a tool asks to run, before permissions are settled.
pub struct RunExecLikeArgs {
    pub tool_name: String,
    pub exec_params: ExecParams,
    /// The command as hooks see it.
    pub hook_command: String,
    pub environment: EnvironmentRef,
    pub remote_execution_enabled: bool,
    pub exec_server_env_config: Option<ExecServerEnvConfig>,
    pub additional_permissions: Option<AdditionalPermissionProfile>,
    pub prefix_rule: Option<Vec<String>>,
    pub call_id: String,
    pub freeform: bool,
    pub shell_runtime_backend: ShellRuntimeBackend,
}

/// A request to the shell runtime.
pub struct ShellRequest {
    pub command: Vec<String>,
    pub hook_command: String,
    pub cwd: String,
    pub environment: EnvironmentRef,
    pub remote_execution_enabled: bool,
    pub timeout_ms: Option<u64>,
    pub env: EnvMap,
    pub exec_server_env_config: Option<ExecServerEnvConfig>,
    pub explicit_env_overrides: EnvMap,
    pub network: Option<NetworkRef>,
    pub sandbox_permissions: SandboxPermissions,
    pub additional_permissions: Option<AdditionalPermissionProfile>,
    pub additional_permissions_preapproved: bool,
    pub justification: Option<String>,
    pub exec_approval_requirement: ExecApprovalRequirement,
}

/// Unless a tool says otherwise, its commands run on the path for every tool.
pub proof fn law_default_backend_is_generic(backend: ShellRuntimeBackend)
    requires
        call_ensures(ShellRuntimeBackend::default, (), backend),
    ensures
        backend is Generic,
{
}

/// A copy of what has to be approved is the same, with the rule that it proposes.
pub proof fn law_copied_requirement_is_the_same(
    requirement: ExecApprovalRequirement,
    copy: ExecApprovalRequirement,
)
    requires
        call_ensures(ExecApprovalRequirement::clone, (&requirement,), copy),
    ensures
        copy.number == requirement.number,
        copy.proposed_execpolicy_amendment is Some
            <==> requirement.proposed_execpolicy_amendment is Some,
        requirement.proposed_execpolicy_amendment is Some
            ==> copy.proposed_execpolicy_amendment->0@
            == requirement.proposed_execpolicy_amendment->0@,
{
}

} // verus!
