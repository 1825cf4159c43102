use codex_core::dir_walk::{read_directory_error, DirWalk, FoundEntry, PendingDir};
use codex_core::environment::{ToolEnvironmentArgs, TurnEnvironment};
use codex_core::error::FunctionCallError;
use codex_core::list_dir::{
    default_depth, default_limit, default_offset, format_entry_component, format_entry_line,
    format_entry_name, list_dir_slice, DirEntry, DirEntryKind, FileMetadata, MAX_ENTRY_LENGTH,
};
use codex_core::list_dir_call::{ListDirArgs, ListDirHandler, WalkStage, WalkStep};
use codex_core::paths::{component_count, join_path};
use codex_core::tool::{ToolKind, ToolPayload};

fn metadata(kind: DirEntryKind) -> FileMetadata {
    FileMetadata {
        is_directory: kind == DirEntryKind::Directory,
        is_file: kind == DirEntryKind::File,
        is_symlink: kind == DirEntryKind::Symlink,
    }
}

fn entry(name: &str, depth: usize, kind: DirEntryKind) -> DirEntry {
    DirEntry { name: name.to_string(), display_name: name.to_string(), depth, kind }
}

fn message(error: FunctionCallError) -> String {
    match error {
        FunctionCallError::RespondToModel(text) => text,
    }
}

fn directory(path: &str) -> Vec<(&'static str, DirEntryKind)> {
    match path {
        "/root" => vec![
            ("nested", DirEntryKind::Directory),
            ("entry.txt", DirEntryKind::File),
            ("link", DirEntryKind::Symlink),
        ],
        "/root/nested" => {
            vec![("deeper", DirEntryKind::Directory), ("child.txt", DirEntryKind::File)]
        }
        "/root/nested/deeper" => vec![("grandchild.txt", DirEntryKind::File)],
        _ => Vec::new(),
    }
}

/// Reads one directory of the walk from `directory`, without the denied path.
fn read_dir(walk: &mut DirWalk, dir: &PendingDir, denied: &str) {
    let mut found: Vec<FoundEntry> = Vec::new();
    for (name, kind) in directory(&dir.path) {
        let visit = dir.visit(name, &join_path);
        if let Some(inspection) = visit.guarded(|path: &str| path == denied) {
            let entry = inspection
                .inspected(Ok(metadata(kind)), &join_path, &component_count)
                .ok()
                .expect("all can be looked at");
            found.push(entry);
        }
    }
    walk.finish_dir(dir, found);
}

/// Reads the whole walk.
fn walked(depth: usize, denied: &str) -> DirWalk {
    let mut walk = DirWalk::new("/root".to_string(), depth);
    while let Some(dir) = walk.next_dir() {
        read_dir(&mut walk, &dir, denied);
    }
    walk
}

/// Handles a call from the walk on.
fn reply_to(given: ListDirArgs) -> Result<String, String> {
    let mut stage = walk_stage(given);
    loop {
        match stage.next() {
            WalkStep::Read { dir, stage: mut next } => {
                read_dir(&mut next.walk, &dir, "");
                stage = next;
            }
            WalkStep::Done(finished) => {
                let reply = finished.finish().map_err(message)?;
                assert_eq!(reply.success, Some(true));
                assert_eq!(reply.post_tool_use_response, None);
                return Ok(reply.text);
            }
        }
    }
}

fn args(offset: usize, limit: usize, depth: usize) -> ListDirArgs {
    ListDirArgs { dir_path: "/root".to_string(), offset, limit, depth }
}

fn environments() -> Vec<TurnEnvironment> {
    vec![TurnEnvironment {
        environment_id: "local".to_string(),
        cwd: "/work".to_string(),
        shell: "bash".to_string(),
        is_remote: false,
    }]
}

fn absolute(path: &str) -> Option<String> {
    if path.starts_with('/') {
        Some(path.to_string())
    } else {
        None
    }
}

fn no_choice() -> ToolEnvironmentArgs {
    ToolEnvironmentArgs { environment_id: None, workdir: None }
}

fn function_call() -> ToolPayload {
    ToolPayload::Function { arguments: "{}".to_string() }
}

fn walk_stage(given: ListDirArgs) -> WalkStage {
    ListDirHandler
        .begin(function_call())
        .ok()
        .and_then(|stage| stage.parsed(|_arguments: &str| Ok(given)).ok())
        .and_then(|stage| stage.located(absolute).ok())
        .and_then(|stage| stage.routed(&environments(), |_arguments: &str| Ok(no_choice())).ok())
        .and_then(|stage| stage.guarded(&join_path, |_cwd: &str, _path: &str| false).ok())
        .expect("nothing stands against the call")
}

#[test]
fn a_call_lists_the_tree_in_the_order_of_its_paths() {
    assert_eq!(
        reply_to(args(1, 20, 3)),
        Ok("Absolute path: /root\nentry.txt\nlink@\nnested/\n  child.txt\n  deeper/\n    grandchild.txt".to_string())
    );
    assert_eq!(
        reply_to(args(9, 20, 3)),
        Err("offset exceeds directory entry count".to_string())
    );
}

#[test]
fn what_a_call_leaves_out_stands_for_the_defaults() {
    let path = || "/root".to_string();
    let left_out = ListDirArgs::with_defaults(path(), None, None, None);
    assert_eq!((left_out.offset, left_out.limit, left_out.depth), (1, 25, 2));
    let written_out = ListDirArgs::with_defaults(path(), Some(1), Some(25), Some(2));
    let other = ListDirArgs::with_defaults(path(), Some(3), Some(4), Some(5));
    assert_eq!((other.offset, other.limit, other.depth), (3, 4, 5));

    let reply = reply_to(left_out);
    assert_eq!(
        reply,
        Ok("Absolute path: /root\nentry.txt\nlink@\nnested/\n  child.txt\n  deeper/".to_string())
    );
    assert_eq!(reply_to(written_out), reply);
}

#[test]
fn only_remote_file_systems_are_read_under_the_sandbox() {
    let routed = |is_remote: bool| {
        let mut places = environments();
        places[0].is_remote = is_remote;
        let stage = ListDirHandler
            .begin(function_call())
            .ok()
            .and_then(|stage| stage.accepted(Ok(args(1, 1, 1))).ok())
            .and_then(|stage| stage.located(absolute).ok())
            .and_then(|stage| stage.chosen(&places, Ok(no_choice())).ok())
            .expect("nothing stands against the call");
        let guarded = stage.sandboxed;
        let walking = match stage.guarded(&join_path, |_cwd: &str, _path: &str| false) {
            Ok(stage) => stage.sandboxed,
            Err(_) => panic!("the path may be read"),
        };
        (guarded, walking)
    };

    assert_eq!(routed(true), (true, true));
    assert_eq!(routed(false), (false, false));
}

#[test]
fn the_depth_ends_the_walk() {
    let names = |depth| -> Vec<String> {
        walked(depth, "").entries.iter().map(|entry| entry.name.clone()).collect()
    };

    assert_eq!(names(1), vec!["entry.txt", "link", "nested"]);
    assert_eq!(
        names(2),
        vec!["entry.txt", "link", "nested", "nested/child.txt", "nested/deeper"]
    );
    for entry in walked(2, "").entries.iter() {
        assert!(entry.depth < 2);
    }
    assert_eq!(names(3).len(), 6);
}

#[test]
fn what_may_not_be_read_is_left_out_with_all_below_it() {
    let walk = walked(3, "/root/nested");
    let names: Vec<&str> = walk.entries.iter().map(|entry| entry.name.as_str()).collect();

    assert_eq!(names, vec!["entry.txt", "link"]);
}

#[test]
fn pages_meet_without_a_gap() {
    let all = || vec![
        entry("c", 0, DirEntryKind::File),
        entry("a", 0, DirEntryKind::File),
        entry("d", 0, DirEntryKind::File),
        entry("b", 0, DirEntryKind::File),
        entry("e", 0, DirEntryKind::File),
    ];

    assert_eq!(
        list_dir_slice(all(), 1, 2).expect("first page"),
        vec!["a", "b", "More than 2 entries found"]
    );
    assert_eq!(
        list_dir_slice(all(), 3, 2).expect("second page"),
        vec!["c", "d", "More than 2 entries found"]
    );
    assert_eq!(list_dir_slice(all(), 5, 2).expect("last page"), vec!["e"]);
    assert_eq!(
        list_dir_slice(all(), 1, usize::MAX).expect("one page"),
        vec!["a", "b", "c", "d", "e"]
    );
}

#[test]
fn entries_with_the_same_sort_key_keep_their_order() {
    let shown = |name: &str, display_name: &str| DirEntry {
        name: name.to_string(),
        display_name: display_name.to_string(),
        depth: 0,
        kind: DirEntryKind::File,
    };
    let all = || {
        vec![
            shown("k", "first"),
            shown("z", "last"),
            shown("k", "second"),
            shown("a", "top"),
            shown("k", "third"),
        ]
    };

    let lines = list_dir_slice(all(), 1, 9).expect("one page");
    assert_eq!(lines, vec!["top", "first", "second", "third", "last"]);
    assert_eq!(list_dir_slice(all(), 1, 9).expect("one page"), lines);
}

#[test]
fn an_offset_past_the_last_entry_is_refused() {
    let one = vec![entry("a", 0, DirEntryKind::File)];

    assert_eq!(
        list_dir_slice(one, 2, 5).map_err(message),
        Err("offset exceeds directory entry count".to_string())
    );
    assert_eq!(list_dir_slice(Vec::new(), 10, 5).map_err(message), Ok(Vec::new()));
}

#[test]
fn each_kind_of_entry_is_marked() {
    assert_eq!(format_entry_line(&entry("d", 0, DirEntryKind::Directory)), "d/");
    assert_eq!(format_entry_line(&entry("f", 1, DirEntryKind::File)), "  f");
    assert_eq!(format_entry_line(&entry("s", 2, DirEntryKind::Symlink)), "    s@");
    assert_eq!(format_entry_line(&entry("o", 0, DirEntryKind::Other)), "o?");
}

#[test]
fn a_link_is_a_link_whatever_it_leads_to() {
    let link = FileMetadata { is_directory: true, is_file: false, is_symlink: true };
    let socket = FileMetadata { is_directory: false, is_file: false, is_symlink: false };

    assert_eq!(DirEntryKind::from(&link), DirEntryKind::Symlink);
    assert_eq!(DirEntryKind::from(&socket), DirEntryKind::Other);
    assert_eq!(DirEntryKind::from(&metadata(DirEntryKind::Directory)), DirEntryKind::Directory);
    assert_eq!(DirEntryKind::from(&metadata(DirEntryKind::File)), DirEntryKind::File);
}

#[test]
fn long_names_are_cut_between_characters() {
    let long = "é".repeat(400);

    let shown = format_entry_component(&long);

    assert_eq!(shown.len(), MAX_ENTRY_LENGTH);
    assert_eq!(shown, "é".repeat(250));
    let odd = format!("a{}", "é".repeat(400));
    assert_eq!(format_entry_component(&odd).len(), 499);
    assert_eq!(format_entry_name("a\\b\\c"), "a/b/c");
    let key = format_entry_name(&"a\\é".repeat(300));
    assert_eq!(format_entry_name(&key), key);
}

#[test]
fn the_defaults_are_those_of_the_tool() {
    assert_eq!((default_offset(), default_limit(), default_depth()), (1, 25, 2));
    assert_eq!(ListDirHandler.kind(), ToolKind::Function);
}

#[test]
fn arguments_out_of_range_are_refused_one_by_one() {
    let refused = |given| -> String {
        match ListDirHandler.begin(function_call()).expect("a function call").accepted(given) {
            Ok(_) => panic!("the arguments are out of range"),
            Err(error) => message(error),
        }
    };

    assert_eq!(refused(Ok(args(0, 0, 0))), "offset must be a 1-indexed entry number");
    assert_eq!(refused(Ok(args(1, 0, 0))), "limit must be greater than zero");
    assert_eq!(refused(Ok(args(1, 1, 0))), "depth must be greater than zero");
    assert_eq!(
        refused(Err("missing field `dir_path`".to_string())),
        "failed to parse function arguments: missing field `dir_path`"
    );
}

#[test]
fn a_call_ends_at_the_first_thing_that_is_wrong() {
    let other = match ListDirHandler.begin(ToolPayload::Other) {
        Ok(_) => panic!("the payload is no function call"),
        Err(error) => message(error),
    };
    assert_eq!(other, "list_dir handler received unsupported payload");

    let parsed = || match ListDirHandler.begin(function_call()).map(|s| s.accepted(Ok(args(1, 1, 1))))
    {
        Ok(Ok(stage)) => stage,
        _ => panic!("the arguments are in range"),
    };
    let relative = match parsed().located(|_path: &str| None) {
        Ok(_) => panic!("the path is relative"),
        Err(error) => message(error),
    };
    assert_eq!(relative, "dir_path must be an absolute path");

    let located = || match parsed().located(absolute) {
        Ok(stage) => stage,
        Err(_) => panic!("the path is absolute"),
    };
    let nowhere = match located().chosen(&Vec::new(), Ok(no_choice())) {
        Ok(_) => panic!("there is no environment"),
        Err(error) => message(error),
    };
    assert_eq!(nowhere, "list_dir is unavailable in this session");
    let missing = ToolEnvironmentArgs { environment_id: Some("x".to_string()), workdir: None };
    let unknown = match located().chosen(&environments(), Ok(missing)) {
        Ok(_) => panic!("there is no such environment"),
        Err(error) => message(error),
    };
    assert_eq!(unknown, "unknown turn environment id `x`");

    let denied = match located().chosen(&environments(), Ok(no_choice())).map(|s| {
        s.guarded(&join_path, |cwd: &str, path: &str| {
            assert_eq!((cwd, path), ("/work", "/root"));
            true
        })
    }) {
        Ok(Err(error)) => message(error),
        _ => panic!("the path may not be read"),
    };
    assert_eq!(
        denied,
        "access denied: reading this path is blocked by filesystem deny_read policy: `/root`"
    );
}

#[test]
fn what_cannot_be_read_ends_the_listing() {
    let dir = PendingDir { path: "/r".to_string(), prefix: String::new(), remaining_depth: 1 };

    let visit = dir.visit("a", &join_path);
    assert_eq!(visit.path, "/r/a");
    let inspection = visit.guarded(|path: &str| path != "/r/a").expect("the entry may be read");
    let inspected = match inspection.inspected(
        Err("no such file".to_string()),
        &join_path,
        &component_count,
    ) {
        Ok(_) => panic!("the entry could not be looked at"),
        Err(error) => message(error),
    };

    assert_eq!(inspected, "failed to inspect entry: no such file");
    assert_eq!(message(read_directory_error("gone")), "failed to read directory: gone");
}
