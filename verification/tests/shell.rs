use codex_core::env_map::EnvMap;
use codex_core::environment::{ToolEnvironmentArgs, TurnEnvironment};
use codex_core::error::FunctionCallError;
use codex_core::exec::{
    exec_server_env_config, EnvInherit, ExecCapturePolicy, NetworkRef, ShellEnvironmentPolicy,
    TurnExecSettings, WindowsSandboxLevel,
};
use codex_core::paths::join_path;
use codex_core::profile::{
    AdditionalPermissionProfile, NetworkPermissions, SandboxPermissions,
};
use codex_core::shell::{
    shell_command_payload_command, shell_payload_command, HookToolName, ShellCommandBackend,
    ShellCommandBackendConfig, ShellCommandHandler, ShellHandler,
};
use codex_core::shell_call::{ShellArgumentsStage, ShellReadyStage, ShellStart};
use codex_core::shell_request::{RunExecLikeArgs, ShellRuntimeBackend};
use codex_core::tool::{ShellCommandToolCallParams, ShellToolCallParams, ToolKind, ToolPayload};

fn words(list: &[&str]) -> Vec<String> {
    list.iter().map(|word| word.to_string()).collect()
}

fn join(list: &Vec<String>) -> String {
    list.join(" ")
}

fn derive(shell: &str, command: &str, login: bool) -> Vec<String> {
    words(&[shell, if login { "-lc" } else { "-c" }, command])
}

fn known_safe(list: &Vec<String>) -> bool {
    list.last().map(|word| word == "ls").unwrap_or(false)
}

fn permissions() -> AdditionalPermissionProfile {
    AdditionalPermissionProfile {
        network: Some(NetworkPermissions { enabled: Some(true) }),
        file_system: None,
    }
}

fn shell_params(command: &[&str]) -> ShellToolCallParams {
    ShellToolCallParams {
        command: words(command),
        workdir: None,
        timeout_ms: Some(5),
        sandbox_permissions: Some(SandboxPermissions::RequireEscalated),
        prefix_rule: Some(words(&["git"])),
        additional_permissions: Some(permissions()),
        justification: Some("why".to_string()),
    }
}

fn command_params(command: &str, login: Option<bool>) -> ShellCommandToolCallParams {
    ShellCommandToolCallParams {
        command: command.to_string(),
        workdir: None,
        login,
        timeout_ms: None,
        sandbox_permissions: None,
        prefix_rule: Some(words(&["git"])),
        additional_permissions: Some(permissions()),
        justification: None,
    }
}

fn env(pairs: &[(&str, &str)]) -> EnvMap {
    let mut env = EnvMap::new();
    for (name, value) in pairs {
        env.insert(name.to_string(), value.to_string());
    }
    env
}

fn settings() -> TurnExecSettings {
    TurnExecSettings {
        env: env(&[("PATH", "/bin")]),
        network: Some(NetworkRef { number: 3 }),
        windows_sandbox_level: WindowsSandboxLevel { code: 1 },
        windows_sandbox_private_desktop: true,
    }
}

fn policy() -> ShellEnvironmentPolicy {
    ShellEnvironmentPolicy {
        inherit: EnvInherit::Core,
        ignore_default_excludes: true,
        exclude: words(&["AWS_*"]),
        set_vars: env(&[("CI", "1")]),
        include_only: words(&["PATH"]),
    }
}

fn environment(id: &str, is_remote: bool) -> TurnEnvironment {
    TurnEnvironment {
        environment_id: id.to_string(),
        cwd: format!("/{id}"),
        shell: if is_remote { "zsh" } else { "bash" }.to_string(),
        is_remote,
    }
}

fn function_call() -> ToolPayload {
    ToolPayload::Function { arguments: r#"{"workdir":"sub"}"#.to_string() }
}

fn message(error: FunctionCallError) -> String {
    match error {
        FunctionCallError::RespondToModel(text) => text,
    }
}

fn arguments_stage() -> ShellArgumentsStage {
    match ShellHandler.begin(function_call(), "shell") {
        Ok(ShellStart::Arguments(stage)) => stage,
        _ => panic!("a function call has arguments"),
    }
}

fn run_shell(stage: ShellReadyStage, environments: &Vec<TurnEnvironment>) -> Result<RunExecLikeArgs, String> {
    stage
        .run_args(
            "shell".to_string(),
            "call".to_string(),
            environments,
            "/turn",
            settings(),
            |turn: &str, workdir: &Option<String>| match workdir {
                Some(workdir) => join_path(turn, workdir),
                None => turn.to_string(),
            },
            join,
        )
        .map_err(message)
}

fn run_command(
    handler: &ShellCommandHandler,
    params: ShellCommandToolCallParams,
    choice: ToolEnvironmentArgs,
    allow_login_shell: bool,
) -> Result<RunExecLikeArgs, String> {
    let environments = vec![environment("local", false), environment("remote", true)];
    let base = match &choice.environment_id {
        Some(id) => format!("/{id}"),
        None => "/local".to_string(),
    };
    let cwd = match &choice.workdir {
        Some(workdir) => format!("{base}/{workdir}"),
        None => base,
    };
    let stage = handler
        .begin(function_call(), "shell_command")
        .map_err(message)?
        .placed(&environments, |arguments: &str| {
            assert_eq!(arguments, r#"{"workdir":"sub"}"#);
            Ok(choice)
        })
        .map_err(message)?
        .parsed(&join_path, |arguments: &str, directory: &str| {
            assert_eq!(arguments, r#"{"workdir":"sub"}"#);
            assert_eq!(directory, cwd);
            Ok(params)
        })
        .map_err(message)?;
    assert_eq!(stage.cwd, cwd);
    stage
        .run_args(
            handler,
            "shell_command".to_string(),
            "call".to_string(),
            settings(),
            &policy(),
            allow_login_shell,
            derive,
        )
        .map_err(message)
}

fn choice(id: Option<&str>) -> ToolEnvironmentArgs {
    ToolEnvironmentArgs { environment_id: id.map(|id| id.to_string()), workdir: None }
}

#[test]
fn a_function_call_of_the_shell_tool_is_run_in_the_first_environment() {
    let based = match arguments_stage().based("/turn") {
        Ok(stage) => stage,
        Err(_) => panic!("the arguments are JSON"),
    };
    assert_eq!(based.base.base, "/turn");
    assert_eq!(based.base.workdir, Some("sub".to_string()));
    let ready = match based.parsed(&join_path, |arguments: &str, directory: &str| {
        assert_eq!(arguments, r#"{"workdir":"sub"}"#);
        assert_eq!(directory, "/turn/sub");
        Ok(shell_params(&["git", "status"]))
    }) {
        Ok(stage) => stage,
        Err(_) => panic!("the arguments were read"),
    };

    let environments = vec![environment("remote", true), environment("local", false)];
    let run = match run_shell(ready, &environments) {
        Ok(run) => run,
        Err(error) => panic!("{error}"),
    };

    assert_eq!(run.environment.index, 0);
    assert!(run.environment.is_remote);
    assert_eq!(run.exec_params.command, words(&["git", "status"]));
    assert_eq!(run.exec_params.cwd, "/turn");
    assert_eq!(run.exec_params.timeout_ms, Some(5));
    assert_eq!(run.exec_params.capture_policy, ExecCapturePolicy::ShellTool);
    assert_eq!(run.exec_params.sandbox_permissions, SandboxPermissions::RequireEscalated);
    assert_eq!(run.exec_params.justification, Some("why".to_string()));
    assert_eq!(run.exec_params.network, Some(NetworkRef { number: 3 }));
    assert_eq!(run.exec_params.arg0, None);
    assert_eq!(run.exec_params.env.get("PATH"), Some(&"/bin".to_string()));
    assert_eq!(run.hook_command, "git status");
    assert!(!run.remote_execution_enabled);
    assert!(run.exec_server_env_config.is_none());
    assert_eq!(run.additional_permissions, Some(permissions()));
    assert_eq!(run.prefix_rule, Some(words(&["git"])));
    assert!(!run.freeform);
    assert_eq!(run.shell_runtime_backend, ShellRuntimeBackend::Generic);
}

#[test]
fn commands_run_in_the_directory_that_their_call_names() {
    let mut params = shell_params(&["ls"]);
    params.workdir = Some("sub".to_string());
    let ready = ShellReadyStage { params, from_function: true };
    let run = match run_shell(ready, &vec![environment("local", false)]) {
        Ok(run) => run,
        Err(error) => panic!("{error}"),
    };
    assert_eq!(run.exec_params.cwd, "/turn/sub");

    let handler = ShellCommandHandler::from(ShellCommandBackendConfig::Classic);
    let mut named = choice(Some("remote"));
    named.workdir = Some("deep".to_string());
    let run = match run_command(&handler, command_params("ls", None), named, true) {
        Ok(run) => run,
        Err(error) => panic!("{error}"),
    };
    assert_eq!(run.exec_params.cwd, "/remote/deep");
    assert_eq!(run.environment.index, 1);
}

#[test]
fn arguments_that_cannot_be_read_are_answered_with_the_reason() {
    let based = match arguments_stage().based("/turn") {
        Ok(stage) => stage,
        Err(_) => panic!("the arguments are JSON"),
    };
    let unread = based.parsed(&join_path, |_arguments: &str, _directory: &str| {
        Err("missing field `command`".to_string())
    });
    assert_eq!(
        unread.err().map(message),
        Some("failed to parse function arguments: missing field `command`".to_string())
    );
    let handler = ShellCommandHandler::from(ShellCommandBackendConfig::Classic);
    let environments = vec![environment("local", false)];
    let placed = match handler
        .begin(function_call(), "shell_command")
        .map(|stage| stage.chosen(&environments, Ok(choice(None))))
    {
        Ok(Ok(stage)) => stage,
        _ => panic!("the call is placed"),
    };
    let unread =
        placed.parsed(&join_path, |_arguments: &str, _directory: &str| Err("bad".to_string()));
    assert_eq!(
        unread.err().map(message),
        Some("failed to parse function arguments: bad".to_string())
    );
}

#[test]
fn a_local_shell_call_brings_no_permissions_of_its_own() {
    let payload = ToolPayload::LocalShell { params: shell_params(&["ls"]) };
    let ready = match ShellHandler.begin(payload, "shell") {
        Ok(ShellStart::Ready(stage)) => stage,
        _ => panic!("a local shell call has its command"),
    };

    let run = match run_shell(ready, &vec![environment("local", false)]) {
        Ok(run) => run,
        Err(error) => panic!("{error}"),
    };

    assert_eq!(run.additional_permissions, None);
    assert_eq!(run.prefix_rule, None);
    assert_eq!(run.exec_params.command, words(&["ls"]));
}

#[test]
fn calls_without_an_environment_or_with_a_strange_payload_are_answered() {
    let ready = ShellReadyStage { params: shell_params(&["ls"]), from_function: true };
    assert_eq!(
        run_shell(ready, &Vec::new()).err(),
        Some("shell is unavailable in this session".to_string())
    );
    assert_eq!(
        ShellHandler.begin(ToolPayload::Other, "shell").err().map(message),
        Some("unsupported payload for shell handler: shell".to_string())
    );
    let handler = ShellCommandHandler::from(ShellCommandBackendConfig::Classic);
    let local = ToolPayload::LocalShell { params: shell_params(&["ls"]) };
    assert_eq!(
        handler.begin(local, "shell_command").err().map(message),
        Some("unsupported payload for shell_command handler: shell_command".to_string())
    );
    let nowhere = handler
        .begin(function_call(), "shell_command")
        .map(|stage| stage.chosen(&Vec::new(), Ok(choice(None))).err().map(message));
    assert_eq!(nowhere, Ok(Some("shell is unavailable in this session".to_string())));
    let unreadable = handler
        .begin(function_call(), "shell_command")
        .map(|stage| stage.chosen(&Vec::new(), Err("bad".to_string())).err().map(message));
    assert_eq!(unreadable, Ok(Some("failed to parse function arguments: bad".to_string())));
    let stage = ShellArgumentsStage { arguments: "{".to_string() };
    let reason = serde_json::from_str::<serde_json::Value>("{").expect_err("not JSON").to_string();
    assert_eq!(
        stage.based("/turn").err().map(message),
        Some(format!("failed to parse function arguments: {reason}"))
    );
}

#[test]
fn a_shell_command_in_a_remote_environment_is_configured_for_it() {
    let handler = ShellCommandHandler::from(ShellCommandBackendConfig::ZshFork);

    let run = match run_command(&handler, command_params("ls", None), choice(Some("remote")), true) {
        Ok(run) => run,
        Err(error) => panic!("{error}"),
    };

    assert_eq!(run.environment.index, 1);
    assert!(run.environment.is_remote);
    assert!(run.remote_execution_enabled);
    let config = run.exec_server_env_config.expect("remote environments are configured");
    assert_eq!(config.policy.inherit, EnvInherit::Core);
    assert!(config.policy.ignore_default_excludes);
    assert_eq!(config.policy.exclude, words(&["AWS_*"]));
    assert_eq!(config.policy.include_only, words(&["PATH"]));
    assert_eq!(config.policy.set_vars.get("CI"), Some(&"1".to_string()));
    assert_eq!(config.local_policy_env.get("PATH"), Some(&"/bin".to_string()));
    assert_eq!(run.exec_params.command, words(&["zsh", "-lc", "ls"]));
    assert_eq!(run.exec_params.sandbox_permissions, SandboxPermissions::UseDefault);
    assert_eq!(run.hook_command, "ls");
    assert!(run.freeform);
    assert_eq!(run.prefix_rule, Some(words(&["git"])));
    assert_eq!(run.shell_runtime_backend, ShellRuntimeBackend::ShellCommandZshFork);
}

#[test]
fn a_shell_command_in_a_local_environment_is_not() {
    let handler = ShellCommandHandler { backend: ShellCommandBackend::Classic };

    let run = match run_command(&handler, command_params("ls", Some(false)), choice(None), true) {
        Ok(run) => run,
        Err(error) => panic!("{error}"),
    };

    assert_eq!(run.environment.index, 0);
    assert!(run.exec_server_env_config.is_none());
    assert_eq!(run.exec_params.command, words(&["bash", "-c", "ls"]));
    assert_eq!(run.shell_runtime_backend, ShellRuntimeBackend::ShellCommandClassic);
}

#[test]
fn a_login_shell_needs_to_be_allowed() {
    let handler = ShellCommandHandler::from(ShellCommandBackendConfig::Classic);
    let disabled = "login shell is disabled by config; omit `login` or set it to false.";

    assert_eq!(
        run_command(&handler, command_params("ls", Some(true)), choice(None), false).err(),
        Some(disabled.to_string())
    );
    assert_eq!(ShellCommandHandler::resolve_use_login_shell(None, false), Ok(false));
    assert_eq!(ShellCommandHandler::resolve_use_login_shell(None, true), Ok(true));
    assert_eq!(ShellCommandHandler::resolve_use_login_shell(Some(false), true), Ok(false));
    assert_eq!(ShellCommandHandler::resolve_use_login_shell(Some(true), true), Ok(true));
    assert_eq!(
        ShellCommandHandler::resolve_use_login_shell(Some(true), false).map_err(message),
        Err(disabled.to_string())
    );
}

#[test]
fn only_commands_that_are_known_to_be_safe_change_nothing() {
    let local = |command: &[&str]| ToolPayload::LocalShell { params: shell_params(command) };
    let parsed = shell_params(&["ls"]);

    assert!(!ShellHandler.is_mutating(&local(&["ls"]), None, known_safe));
    assert!(ShellHandler.is_mutating(&local(&["rm"]), None, known_safe));
    assert!(!ShellHandler.is_mutating(&function_call(), Some(&parsed), known_safe));
    assert!(ShellHandler.is_mutating(&function_call(), None, known_safe));
    assert!(ShellHandler.is_mutating(&ToolPayload::Other, Some(&parsed), known_safe));

    let handler = ShellCommandHandler::from(ShellCommandBackendConfig::Classic);
    let mutating = |params: &ShellCommandToolCallParams, allowed: bool| {
        handler.is_mutating(&function_call(), Some(params), allowed, "fish", derive, known_safe)
    };
    assert!(!mutating(&command_params("ls", None), true));
    assert!(mutating(&command_params("rm", None), true));
    assert!(mutating(&command_params("ls", Some(true)), false));
    handler.is_mutating(
        &function_call(),
        Some(&command_params("ls", None)),
        false,
        "fish",
        derive,
        |argv: &Vec<String>| {
            assert_eq!(argv, &words(&["fish", "-c", "ls"]));
            true
        },
    );
    assert!(handler.is_mutating(&ToolPayload::Other, None, true, "fish", derive, known_safe));
}

#[test]
fn hooks_are_told_the_command() {
    let parsed = shell_params(&["git", "status"]);
    let response = || Some(serde_json::Value::from("out"));
    let before = ShellHandler
        .pre_tool_use_payload(&function_call(), Some(&parsed), join)
        .expect("the call holds a command");
    assert_eq!(before.tool_name, HookToolName::Bash);
    assert_eq!(before.tool_input.to_string(), r#"{"command":"git status"}"#);
    let after = ShellHandler
        .post_tool_use_payload("call", &function_call(), Some(&parsed), response(), join)
        .expect("there is a response");
    assert_eq!(after.tool_use_id, "call");
    assert_eq!(after.tool_input, before.tool_input);
    assert_eq!(after.tool_response, serde_json::Value::from("out"));
    assert!(ShellHandler
        .post_tool_use_payload("call", &function_call(), Some(&parsed), None, join)
        .is_none());
    assert!(ShellHandler
        .post_tool_use_payload("call", &function_call(), None, response(), join)
        .is_none());
    assert!(ShellHandler.pre_tool_use_payload(&function_call(), None, join).is_none());

    let handler = ShellCommandHandler::from(ShellCommandBackendConfig::Classic);
    let script = command_params("ls -l", None);
    let told = handler
        .pre_tool_use_payload(&function_call(), Some(&script))
        .expect("the call holds a command");
    assert_eq!(told.tool_input.to_string(), r#"{"command":"ls -l"}"#);
    let told = handler
        .post_tool_use_payload("id", &function_call(), Some(&script), response())
        .expect("there is a response");
    assert_eq!(told.tool_use_id, "id");
    assert_eq!(told.tool_input.to_string(), r#"{"command":"ls -l"}"#);
    assert!(handler.pre_tool_use_payload(&ToolPayload::Other, Some(&script)).is_none());
}

#[test]
fn payloads_hold_commands_in_their_own_way() {
    let parsed = shell_params(&["a", "b"]);
    let local = ToolPayload::LocalShell { params: shell_params(&["c"]) };

    assert_eq!(
        shell_payload_command(&function_call(), Some(&parsed), join),
        Some("a b".to_string())
    );
    assert_eq!(shell_payload_command(&local, Some(&parsed), join), Some("c".to_string()));
    assert_eq!(shell_payload_command(&ToolPayload::Other, Some(&parsed), join), None);
    let script = command_params("x", None);
    assert_eq!(
        shell_command_payload_command(&function_call(), Some(&script)),
        Some("x".to_string())
    );
    assert_eq!(shell_command_payload_command(&local, Some(&script)), None);
    let handler = ShellCommandHandler::from(ShellCommandBackendConfig::Classic);
    assert!(ShellHandler.matches_kind(&local));
    assert!(!handler.matches_kind(&local));
    assert!(handler.matches_kind(&function_call()));
    assert_eq!((ShellHandler.kind(), handler.kind()), (ToolKind::Function, ToolKind::Function));
}

#[test]
fn the_policy_for_an_exec_server_says_what_the_shells_says() {
    let config = exec_server_env_config(&policy(), &env(&[("A", "b")]));

    assert_eq!(config.policy.exclude, words(&["AWS_*"]));
    assert_eq!(config.local_policy_env.get("A"), Some(&"b".to_string()));
    assert_eq!(config.local_policy_env.pairs().len(), 1);
}
