use codex_core::env_map::EnvMap;
use codex_core::error::FunctionCallError;
use codex_core::exec::{
    EnvInherit, ExecCapturePolicy, ExecEnvPolicy, ExecParams, ExecServerEnvConfig, NetworkRef,
    WindowsSandboxLevel,
};
use codex_core::exec_like::{
    exec_like_output, runtime_for, FileSystemPolicyRef, PermissionFeatures, PermissionProfileRef,
    SettledExec, TurnPolicies,
};
use codex_core::exec_output::ToolError;
use codex_core::exec_server::{
    exec_server_env_for_request, exec_server_params_for_request, ExecRequest, SandboxType,
};
use codex_core::profile::{
    AdditionalPermissionProfile, AskForApproval, NetworkPermissions, SandboxPermissions,
};
use codex_core::run::{AfterZshFork, PreparedRun};
use codex_core::runtime::{
    ApprovalCtx, ApprovalRoute, NetworkApprovalContext, NetworkApprovalMode, SandboxablePreference,
    ShellRuntime,
};
use codex_core::shell::HookToolName;
use codex_core::shell_request::{
    EnvironmentRef, ExecApprovalRequirement, RunExecLikeArgs, ShellRequest, ShellRuntimeBackend,
};

fn words(list: &[&str]) -> Vec<String> {
    list.iter().map(|word| word.to_string()).collect()
}

fn env(pairs: &[(&str, &str)]) -> EnvMap {
    let mut env = EnvMap::new();
    for (name, value) in pairs {
        env.insert(name.to_string(), value.to_string());
    }
    env
}

fn network() -> AdditionalPermissionProfile {
    AdditionalPermissionProfile {
        network: Some(NetworkPermissions { enabled: Some(true) }),
        file_system: None,
    }
}

fn run_args(sandbox: SandboxPermissions, asked: Option<AdditionalPermissionProfile>) -> RunExecLikeArgs {
    RunExecLikeArgs {
        tool_name: "shell".to_string(),
        exec_params: ExecParams {
            command: words(&["git", "push"]),
            cwd: "/work".to_string(),
            timeout_ms: Some(7),
            capture_policy: ExecCapturePolicy::ShellTool,
            env: env(&[("PATH", "/bin"), ("TOKEN", "own")]),
            network: Some(NetworkRef { number: 1 }),
            sandbox_permissions: sandbox,
            windows_sandbox_level: WindowsSandboxLevel { code: 0 },
            windows_sandbox_private_desktop: false,
            justification: Some("push".to_string()),
            arg0: None,
        },
        hook_command: "git push".to_string(),
        environment: EnvironmentRef { index: 0, is_remote: false },
        remote_execution_enabled: true,
        exec_server_env_config: None,
        additional_permissions: asked,
        prefix_rule: Some(words(&["git"])),
        call_id: "call".to_string(),
        freeform: true,
        shell_runtime_backend: ShellRuntimeBackend::ShellCommandZshFork,
    }
}

fn merge(
    base: Option<&AdditionalPermissionProfile>,
    added: Option<&AdditionalPermissionProfile>,
) -> Option<AdditionalPermissionProfile> {
    base.or(added).cloned()
}

fn intersect(
    asked: &AdditionalPermissionProfile,
    granted: &AdditionalPermissionProfile,
    _cwd: &str,
) -> AdditionalPermissionProfile {
    let network = if asked.network == granted.network { asked.network } else { None };
    AdditionalPermissionProfile { network, file_system: None }
}

fn settle(
    args: RunExecLikeArgs,
    granted: Option<&AdditionalPermissionProfile>,
    approvals: bool,
    policy: AskForApproval,
) -> Result<SettledExec, String> {
    args.settle(
        &env(&[("TOKEN", "dependency"), ("KEY", "added")]),
        &env(&[("CI", "1"), ("KEY", "policy")]),
        None,
        granted,
        PermissionFeatures { exec_permission_approvals: approvals, request_permissions_tool: true },
        policy,
        merge,
        intersect,
        Ok,
    )
    .map_err(|error| match error {
        FunctionCallError::RespondToModel(text) => text,
    })
}

fn settled(args: RunExecLikeArgs, policy: AskForApproval) -> SettledExec {
    match settle(args, None, true, policy) {
        Ok(settled) => settled,
        Err(error) => panic!("{error}"),
    }
}

fn policies(approval_policy: AskForApproval) -> TurnPolicies {
    TurnPolicies {
        approval_policy,
        permission_profile: PermissionProfileRef { number: 5 },
        file_system_sandbox_policy: FileSystemPolicyRef { number: 6 },
    }
}

fn requirement() -> ExecApprovalRequirement {
    ExecApprovalRequirement { number: 9, proposed_execpolicy_amendment: Some(words(&["git"])) }
}

fn request(is_remote: bool, remote_execution_enabled: bool) -> ShellRequest {
    let mut args = run_args(SandboxPermissions::WithAdditionalPermissions, Some(network()));
    args.environment.is_remote = is_remote;
    args.remote_execution_enabled = remote_execution_enabled;
    settled(args, AskForApproval::OnRequest).into_request(requirement(), |asked| asked)
}

fn prepare(
    request: &ShellRequest,
    backend: ShellRuntimeBackend,
    is_powershell: bool,
) -> Result<PreparedRun, ToolError> {
    runtime_for(backend).prepare_run(
        request,
        is_powershell,
        |network, _permissions| network,
        |vars: &EnvMap, _permissions| {
            let mut vars = vars.clone();
            vars.insert("SANDBOX".to_string(), "1".to_string());
            vars
        },
        |argv: &Vec<String>, cwd: &str, overrides: &EnvMap, vars: &EnvMap| {
            let mut wrapped = words(&["snapshot", cwd]);
            wrapped.push(overrides.pairs().len().to_string());
            wrapped.push(vars.pairs().len().to_string());
            wrapped.extend(argv.iter().cloned());
            wrapped
        },
        |argv: &Vec<String>| {
            let mut prefixed = words(&["utf8"]);
            prefixed.extend(argv.iter().cloned());
            prefixed
        },
    )
}

#[test]
fn the_variables_of_dependencies_are_laid_over_the_commands_own() {
    let settled = settled(run_args(SandboxPermissions::UseDefault, None), AskForApproval::Never);

    let vars = &settled.exec_params.env;
    assert_eq!(vars.get("PATH"), Some(&"/bin".to_string()));
    assert_eq!(vars.get("TOKEN"), Some(&"dependency".to_string()));
    assert_eq!(vars.get("KEY"), Some(&"added".to_string()));
    let overrides = &settled.explicit_env_overrides;
    assert_eq!(overrides.get("CI"), Some(&"1".to_string()));
    assert_eq!(overrides.get("KEY"), Some(&"added".to_string()));
    assert_eq!(overrides.get("TOKEN"), Some(&"dependency".to_string()));
    assert_eq!(overrides.pairs().len(), 3);
    assert_eq!(settled.sandbox_permissions, SandboxPermissions::UseDefault);
    assert_eq!(settled.additional_permissions, None);
}

#[test]
fn escalation_is_refused_unless_it_may_be_asked_for() {
    let escalated = || run_args(SandboxPermissions::RequireEscalated, None);

    assert_eq!(
        settle(escalated(), Some(&network()), true, AskForApproval::OnFailure).err(),
        Some("approval policy is OnFailure; reject command — you should not ask for escalated permissions if the approval policy is OnFailure".to_string())
    );
    let allowed = settled(escalated(), AskForApproval::OnRequest);
    assert_eq!(allowed.sandbox_permissions, SandboxPermissions::RequireEscalated);
    assert_eq!(allowed.additional_permissions, None);
}

#[test]
fn granted_permissions_come_with_a_plain_command() {
    let granted = network();
    let plain = run_args(SandboxPermissions::UseDefault, None);

    let settled = match settle(plain, Some(&granted), false, AskForApproval::Never) {
        Ok(settled) => settled,
        Err(error) => panic!("{error}"),
    };

    assert_eq!(settled.sandbox_permissions, SandboxPermissions::WithAdditionalPermissions);
    assert_eq!(settled.additional_permissions, Some(network()));
    assert!(settled.permissions_preapproved);
    let asked = settled.approval_request(policies(AskForApproval::Never));
    assert_eq!(asked.sandbox_permissions, SandboxPermissions::UseDefault);
    assert_eq!(asked.command, &words(&["git", "push"]));
    assert_eq!(asked.sandbox_cwd, "/work");
    assert_eq!(asked.approval_policy, AskForApproval::Never);
    assert_eq!(asked.permission_profile, PermissionProfileRef { number: 5 });
    assert_eq!(asked.file_system_sandbox_policy, FileSystemPolicyRef { number: 6 });
    assert_eq!(asked.prefix_rule, &Some(words(&["git"])));
}

#[test]
fn fresh_permissions_need_the_feature_and_the_policy() {
    let fresh = || run_args(SandboxPermissions::WithAdditionalPermissions, Some(network()));

    assert_eq!(
        settle(fresh(), None, false, AskForApproval::OnRequest).err(),
        Some("additional permissions are disabled; enable `features.exec_permission_approvals` before using `with_additional_permissions`".to_string())
    );
    assert_eq!(
        settle(fresh(), None, true, AskForApproval::Never).err(),
        Some("approval policy is Never; reject command — you cannot request additional permissions unless the approval policy is OnRequest".to_string())
    );
    let settled = settled(fresh(), AskForApproval::OnRequest);
    assert_eq!(settled.additional_permissions, Some(network()));
    assert!(!settled.permissions_preapproved);
    assert_eq!(
        settled.approval_request(policies(AskForApproval::OnRequest)).sandbox_permissions,
        SandboxPermissions::WithAdditionalPermissions
    );
    let granted = network();
    assert!(settle(fresh(), Some(&granted), false, AskForApproval::Never).is_ok());
}

#[test]
fn a_request_carries_everything_over() {
    let request = request(false, true);

    assert_eq!(request.command, words(&["git", "push"]));
    assert_eq!(request.hook_command, "git push");
    assert_eq!(request.cwd, "/work");
    assert_eq!(request.timeout_ms, Some(7));
    assert_eq!(request.network, Some(NetworkRef { number: 1 }));
    assert_eq!(request.justification, Some("push".to_string()));
    assert!(!request.additional_permissions_preapproved);
    assert_eq!(request.exec_approval_requirement.number, 9);
    let limited = settled(run_args(SandboxPermissions::UseDefault, None), AskForApproval::Never)
        .into_request(requirement(), |asked| asked.map(|ms| ms + 1));
    assert_eq!(limited.timeout_ms, Some(8));
}

#[test]
fn the_output_of_a_command_is_handed_back() {
    let output = exec_like_output(Ok("done".to_string()), Some("raw".to_string()))
        .expect("the command has run");
    assert_eq!(output.text, "done");
    assert_eq!(output.success, Some(true));
    assert_eq!(output.post_tool_use_response, Some(serde_json::Value::from("raw")));
    let failed = FunctionCallError::RespondToModel("failed".to_string());
    assert_eq!(
        exec_like_output(Err(failed), None).err(),
        Some(FunctionCallError::RespondToModel("failed".to_string()))
    );
}

#[test]
fn tools_that_stay_local_are_refused_in_remote_environments() {
    let refused = prepare(&request(true, false), ShellRuntimeBackend::Generic, false);

    assert_eq!(
        refused.err(),
        Some(ToolError::Rejected(
            "shell execution is unavailable for remote environments".to_string()
        ))
    );
    assert!(prepare(&request(true, true), ShellRuntimeBackend::Generic, false).is_ok());
    assert!(prepare(&request(false, false), ShellRuntimeBackend::Generic, false).is_ok());
}

#[test]
fn only_local_commands_are_wrapped_and_handed_to_a_forked_zsh() {
    let prepared = |is_remote, backend, is_powershell| {
        match prepare(&request(is_remote, true), backend, is_powershell) {
            Ok(run) => run,
            Err(_) => panic!("the command is within reach"),
        }
    };
    let local = prepared(false, ShellRuntimeBackend::ShellCommandZshFork, false);
    assert_eq!(local.command, words(&["snapshot", "/work", "3", "4", "git", "push"]));
    assert_eq!(local.env.get("SANDBOX"), Some(&"1".to_string()));
    assert_eq!(local.network, Some(NetworkRef { number: 1 }));
    assert!(local.tries_zsh_fork);
    assert!(!local.runs_remotely);

    let remote = prepared(true, ShellRuntimeBackend::ShellCommandZshFork, false);
    assert_eq!(remote.command, words(&["git", "push"]));
    assert!(!remote.tries_zsh_fork);
    assert!(remote.runs_remotely);

    assert!(!prepared(false, ShellRuntimeBackend::ShellCommandClassic, false).tries_zsh_fork);
    let powershell = prepared(true, ShellRuntimeBackend::Generic, true);
    assert_eq!(powershell.command, words(&["utf8", "git", "push"]));
}

#[test]
fn a_forked_zsh_that_cannot_run_the_command_leaves_it_to_the_standard_path() {
    let run = || match prepare(&request(false, true), ShellRuntimeBackend::ShellCommandZshFork, false)
    {
        Ok(run) => run,
        Err(_) => panic!("the command is within reach"),
    };

    match run().after_zsh_fork(Some(5)) {
        AfterZshFork::Finished(output) => assert_eq!(output, 5),
        AfterZshFork::FallBack(_) => panic!("there is an output"),
    }
    match run().after_zsh_fork::<i32>(None) {
        AfterZshFork::Finished(_) => panic!("there is no output"),
        AfterZshFork::FallBack(next) => {
            assert!(!next.tries_zsh_fork);
            assert_eq!(next.command.len(), 6);
        }
    }
}

#[test]
fn a_prepared_command_is_put_into_its_sandbox() {
    let mut asked = request(true, true);
    asked.exec_server_env_config = Some(server_config());
    let run = match prepare(&asked, ShellRuntimeBackend::Generic, false) {
        Ok(run) => run,
        Err(_) => panic!("the command is within reach"),
    };

    let exec = run
        .into_exec_request(
            &asked,
            true,
            |argv: &Vec<String>, cwd: &str, _vars: &EnvMap, permissions| {
                assert_eq!(cwd, "/work");
                assert_eq!(permissions, Some(network()));
                Ok(argv.clone())
            },
            |argv: Vec<String>, options, network| {
                assert_eq!(options.timeout_ms, Some(7));
                assert!(options.ends_on_network_denial);
                assert_eq!(options.capture_policy, ExecCapturePolicy::ShellTool);
                assert_eq!(network, Some(NetworkRef { number: 1 }));
                Ok(exec_request(argv, None))
            },
        )
        .ok()
        .expect("nothing stands against the command");

    assert_eq!(exec.command, words(&["git", "push"]));
    let config = exec.exec_server_env_config.expect("the configuration is kept");
    assert_eq!(config.policy.exclude, words(&["SECRET_*"]));
}

#[test]
fn a_command_that_cannot_be_built_is_not_run() {
    let asked = request(true, true);
    let run = || match prepare(&asked, ShellRuntimeBackend::Generic, false) {
        Ok(run) => run,
        Err(_) => panic!("the command is within reach"),
    };
    let reason = || ToolError::Rejected("no program".to_string());

    let unbuilt = run().into_exec_request(
        &asked,
        false,
        |_argv: &Vec<String>, _cwd: &str, _vars: &EnvMap, _permissions| Err(reason()),
        |argv: Vec<String>, _options, _network| Ok(exec_request(argv, None)),
    );
    assert_eq!(unbuilt.err(), Some(reason()));
    let unsandboxed = run().into_exec_request(
        &asked,
        false,
        |argv: &Vec<String>, _cwd: &str, _vars: &EnvMap, _permissions| Ok(argv.clone()),
        |_argv: Vec<String>, _options, _network| Err(reason()),
    );
    assert_eq!(unsandboxed.err(), Some(reason()));
}

fn server_config() -> ExecServerEnvConfig {
    ExecServerEnvConfig {
        policy: ExecEnvPolicy {
            inherit: EnvInherit::All,
            ignore_default_excludes: false,
            exclude: words(&["SECRET_*"]),
            set_vars: EnvMap::new(),
            include_only: Vec::new(),
        },
        local_policy_env: env(&[("PATH", "/bin"), ("HOME", "/home")]),
    }
}

fn exec_request(command: Vec<String>, config: Option<ExecServerEnvConfig>) -> ExecRequest {
    ExecRequest {
        command,
        cwd: "/work".to_string(),
        env: env(&[("PATH", "/bin"), ("HOME", "/other"), ("TOKEN", "t")]),
        exec_server_env_config: config,
        sandbox: SandboxType { code: 2 },
        arg0: Some("git".to_string()),
    }
}

#[test]
fn a_server_is_sent_what_its_policy_does_not_give() {
    let request = exec_request(words(&["ls"]), Some(server_config()));

    let params = exec_server_params_for_request(&request, "call");

    assert_eq!(params.process_id, "call");
    assert_eq!(params.argv, words(&["ls"]));
    assert_eq!(params.cwd, "/work");
    assert_eq!(params.arg0, Some("git".to_string()));
    assert!(!params.tty);
    assert!(!params.pipe_stdin);
    assert_eq!(params.env.pairs().len(), 2);
    assert_eq!(params.env.get("HOME"), Some(&"/other".to_string()));
    assert_eq!(params.env.get("TOKEN"), Some(&"t".to_string()));
    let policy = params.env_policy.expect("the policy is sent");
    assert_eq!(policy.inherit, EnvInherit::All);
    let mut on_server = server_config().local_policy_env;
    on_server.extend(&params.env);
    for (name, value) in request.env.pairs() {
        assert_eq!(on_server.get(name), Some(value));
    }
}

#[test]
fn a_server_without_a_policy_is_sent_everything() {
    let request = exec_request(words(&["ls"]), None);

    let (policy, vars) = exec_server_env_for_request(&request);

    assert!(policy.is_none());
    assert_eq!(vars.pairs().len(), 3);
}

#[test]
fn an_approval_is_remembered_by_the_canonical_command() {
    let asked = request(false, true);
    let canonical = |argv: &Vec<String>| words(&["canonical", argv[0].as_str()]);

    let keys = ShellRuntime::new().approval_keys(&asked, canonical);

    assert_eq!(keys.len(), 1);
    assert_eq!(keys[0].command, words(&["canonical", "git"]));
    assert_eq!(keys[0].cwd, "/work");
    assert_eq!(keys[0].sandbox_permissions, SandboxPermissions::WithAdditionalPermissions);
    assert_eq!(keys[0].additional_permissions, Some(network()));
}

fn approval_ctx(review: Option<&str>, retry: Option<&str>) -> ApprovalCtx {
    ApprovalCtx {
        call_id: "call".to_string(),
        guardian_review_id: review.map(|id| id.to_string()),
        retry_reason: retry.map(|reason| reason.to_string()),
        network_approval_context: Some(NetworkApprovalContext { number: 4 }),
    }
}

#[test]
fn a_review_decides_where_one_is_at_work() {
    let asked = request(false, true);
    let ctx = approval_ctx(Some("review"), Some("denied once"));

    match ShellRuntime::new().start_approval(&asked, &ctx, |argv: &Vec<String>| argv.clone()) {
        ApprovalRoute::Guardian { review_id, request, retry_reason } => {
            assert_eq!(review_id, "review");
            assert_eq!(request.id, "call");
            assert_eq!(request.command, words(&["git", "push"]));
            assert_eq!(request.cwd, "/work");
            assert_eq!(request.additional_permissions, Some(network()));
            assert_eq!(request.justification, Some("push".to_string()));
            assert_eq!(retry_reason, Some("denied once".to_string()));
        }
        ApprovalRoute::Cached { .. } => panic!("a review is at work"),
    }
}

#[test]
fn the_user_decides_otherwise() {
    let asked = request(false, true);
    let reason = |retry| {
        let ctx = approval_ctx(None, retry);
        match ShellRuntime::new().start_approval(&asked, &ctx, |argv: &Vec<String>| argv.clone()) {
            ApprovalRoute::Guardian { .. } => panic!("no review is at work"),
            ApprovalRoute::Cached { tool, keys, prompt } => {
                assert_eq!(tool, "shell");
                assert_eq!(keys.len(), 1);
                assert_eq!(prompt.call_id, "call");
                assert_eq!(prompt.proposed_execpolicy_amendment, Some(words(&["git"])));
                assert_eq!(
                    prompt.network_approval_context,
                    Some(NetworkApprovalContext { number: 4 })
                );
                prompt.reason
            }
        }
    };

    assert_eq!(reason(None), Some("push".to_string()));
    assert_eq!(reason(Some("again")), Some("again".to_string()));
}

#[test]
fn the_runtime_says_what_the_request_says() {
    let asked = request(false, true);
    let runtime = ShellRuntime::default();

    assert_eq!(runtime.backend, ShellRuntimeBackend::Generic);
    assert_eq!(
        ShellRuntime::for_shell_command(ShellRuntimeBackend::ShellCommandClassic).backend,
        ShellRuntimeBackend::ShellCommandClassic
    );
    assert_eq!(runtime.sandbox_preference(), SandboxablePreference::Auto);
    assert!(runtime.escalate_on_failure());
    assert_eq!(runtime.sandbox_cwd(&asked), Some(&"/work".to_string()));
    let requirement = runtime.exec_approval_requirement(&asked).expect("always there");
    assert_eq!(requirement.number, 9);
    assert_eq!(requirement.proposed_execpolicy_amendment, Some(words(&["git"])));
    let told = runtime.permission_request_payload(&asked).expect("always there");
    assert_eq!(told.tool_name, HookToolName::Bash);
    assert_eq!(told.command, "git push");
    assert_eq!(told.description, Some("push".to_string()));
    let mode = runtime.sandbox_mode_for_first_attempt(&asked, |permissions, requirement| {
        (permissions, requirement.number)
    });
    assert_eq!(mode, (SandboxPermissions::WithAdditionalPermissions, 9));
    let stream = ShellRuntime::stdout_stream(&"sub".to_string(), &"call".to_string())
        .expect("always there");
    assert_eq!((stream.sub_id.as_str(), stream.call_id.as_str()), ("sub", "call"));
}

#[test]
fn access_to_the_network_is_approved_where_there_is_a_proxy() {
    let asked = request(false, true);
    let runtime = ShellRuntime::new();
    let approval = |managed: Option<NetworkRef>| {
        runtime.network_approval_spec(
            &asked,
            &"call".to_string(),
            &"shell".to_string(),
            |_network, _permissions| managed,
        )
    };

    assert!(approval(None).is_none());
    let how = approval(Some(NetworkRef { number: 8 })).expect("there is a proxy");
    assert_eq!(how.network, Some(NetworkRef { number: 8 }));
    assert_eq!(how.mode, NetworkApprovalMode::Immediate);
    assert_eq!(how.trigger.call_id, "call");
    assert_eq!(how.trigger.tool_name, "shell");
    assert_eq!(how.trigger.command, words(&["git", "push"]));
    assert_eq!(how.trigger.tty, None);
    assert_eq!(how.command, "git push");
}
