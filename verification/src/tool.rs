//! Tool calls as the handlers receive them.

use crate::profile::{AdditionalPermissionProfile, SandboxPermissions};
use vstd::prelude::*;

verus! {

/// The family that a handler belongs to.
#[derive(Clone, Copy, Debug, PartialEq, Eq, Structural)]
pub enum ToolKind {
    Function,
    Mcp,
}

/// The arguments of the `shell` tool.
pub struct ShellToolCallParams {
    pub command: Vec<String>,
    pub workdir: Option<String>,
    pub timeout_ms: Option<u64>,
    pub sandbox_permissions: Option<SandboxPermissions>,
    pub prefix_rule: Option<Vec<String>>,
    pub additional_permissions: Option<AdditionalPermissionProfile>,
    pub justification: Option<String>,
}

/// The arguments of the `shell_command` tool.
pub struct ShellCommandToolCallParams {
    pub command: String,
    pub workdir: Option<String>,
    pub login: Option<bool>,
    pub timeout_ms: Option<u64>,
    pub sandbox_permissions: Option<SandboxPermissions>,
    pub prefix_rule: Option<Vec<String>>,
    pub additional_permissions: Option<AdditionalPermissionProfile>,
    pub justification: Option<String>,
}

/// What a tool is called with.
pub enum ToolPayload {
    /// A function call; the arguments are JSON text.
    Function { arguments: String },
    /// A call of the local shell.
    LocalShell { params: ShellToolCallParams },
    /// Any other call.
    Other,
}

/// What a tool call hands back to the model.
pub struct FunctionToolOutput {
    pub text: String,
    pub success: Option<bool>,
    /// What the hooks that run after the tool are told, where they are told
    /// anything.
    pub post_tool_use_response: Option<serde_json::Value>,
}

/// `parsed` is what `parse` reads in the arguments.
pub open spec fn reads<T, P: FnOnce(&str) -> Result<T, String>>(
    parse: P,
    arguments: Seq<char>,
    parsed: Result<T, String>,
) -> bool {
    exists|a: &str| a@ == arguments && #[trigger] call_ensures(parse, (a,), parsed)
}

} // verus!
