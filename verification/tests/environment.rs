use codex_core::environment::{
    resolve_tool_environment, resolve_workdir_base_path, ToolEnvironmentArgs, TurnEnvironment,
};
use codex_core::error::FunctionCallError;
use codex_core::paths::join_path;

fn environment(id: &str, cwd: &str) -> TurnEnvironment {
    TurnEnvironment {
        environment_id: id.to_string(),
        cwd: cwd.to_string(),
        shell: "bash".to_string(),
        is_remote: id == "remote",
    }
}

fn environment_args(arguments: &str) -> ToolEnvironmentArgs {
    let value: serde_json::Value =
        serde_json::from_str(arguments).expect("valid arguments should parse");
    let text = |name: &str| value.get(name).and_then(|v| v.as_str()).map(|v| v.to_string());
    ToolEnvironmentArgs { environment_id: text("environment_id"), workdir: text("workdir") }
}

#[test]
fn resolve_tool_environment_returns_none_without_turn_environments() {
    let resolved =
        resolve_tool_environment(&Vec::new(), &environment_args(r#"{"cmd":"echo hello"}"#))
            .expect("valid arguments should parse");

    assert!(resolved.is_none());
}

#[test]
fn resolve_tool_environment_selects_environment_before_resolving_workdir() {
    let environments = vec![environment("local", "/local"), environment("remote", "/remote")];
    let arguments = r#"{
        "cmd": "echo hello",
        "environment_id": "remote",
        "workdir": "nested"
    }"#;

    let resolved = resolve_tool_environment(&environments, &environment_args(arguments))
        .expect("the id is known")
        .expect("selected environment should resolve");

    assert_eq!(resolved.environment, 1);
    assert_eq!(resolved.cwd.base, "/remote");
    assert_eq!(resolved.cwd.workdir, Some("nested".to_string()));
    assert_eq!(resolved.cwd.directory(&join_path), "/remote/nested");
}

#[test]
fn resolve_tool_environment_rejects_unknown_environment_id() {
    let environments = vec![environment("local", "/local")];

    let err = match resolve_tool_environment(
        &environments,
        &environment_args(r#"{"environment_id":"missing"}"#),
    ) {
        Ok(_) => panic!("unknown environment should be rejected"),
        Err(err) => err,
    };

    assert_eq!(
        err,
        FunctionCallError::RespondToModel("unknown turn environment id `missing`".to_string())
    );
}

#[test]
fn without_an_id_the_first_environment_is_used() {
    let environments = vec![environment("a", "/a"), environment("b", "/b"), environment("a", "/c")];

    let first = resolve_tool_environment(&environments, &environment_args(r#"{"workdir":""}"#))
        .expect("no id was given")
        .expect("there are environments");
    assert_eq!(first.environment, 0);
    assert_eq!(first.cwd.base, "/a");
    assert_eq!(first.cwd.workdir, None);
    assert_eq!(first.cwd.directory(&join_path), "/a");

    let named = resolve_tool_environment(&environments, &environment_args(r#"{"environment_id":"a"}"#))
        .expect("the id is known")
        .expect("there are environments");
    assert_eq!(named.environment, 0);
}

#[test]
fn the_base_path_follows_the_workdir_in_the_arguments() {
    let named = resolve_workdir_base_path(r#"{"command":["ls"],"workdir":"sub"}"#, "/home")
        .expect("the arguments are JSON");
    assert_eq!(named.base, "/home");
    assert_eq!(named.workdir, Some("sub".to_string()));

    let empty = resolve_workdir_base_path(r#"{"workdir":""}"#, "/home").expect("JSON");
    assert_eq!(empty.workdir, None);

    let number = resolve_workdir_base_path(r#"{"workdir":7}"#, "/home").expect("JSON");
    assert_eq!(number.workdir, None);

    let list = resolve_workdir_base_path(r#"["workdir"]"#, "/home").expect("JSON");
    assert_eq!(list.workdir, None);
}

#[test]
fn arguments_that_are_no_json_are_answered_with_the_reason() {
    let reason = serde_json::from_str::<serde_json::Value>("{").expect_err("not JSON").to_string();

    let err = match resolve_workdir_base_path("{", "/home") {
        Ok(_) => panic!("the arguments are not JSON"),
        Err(err) => err,
    };

    assert_eq!(
        err,
        FunctionCallError::RespondToModel(format!("failed to parse function arguments: {reason}"))
    );
}
