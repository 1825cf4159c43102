use codex_core::marketplace_temp::{
    leftovers_in, matches_temp_dir, temp_dir_parents, TempEntry,
};
use codex_core::marketplaces::{
    installed_marketplace_roots_from_layer_stack, marketplace_install_root,
    marketplace_root_of_source, resolve_configured_marketplace_root, AbsolutePath,
    INSTALLED_MARKETPLACES_DIR, MARKETPLACE_STALE_TEMP_DIR_MAX_AGE,
};
use codex_core::paths::{join_path, path_components, PathComponent, PathPrefix};

const SECOND: u128 = 1_000_000_000;

fn config(text: &str) -> toml::Value {
    toml::from_str::<toml::Value>(text).expect("the configuration is TOML")
}

fn absolute(path: &str) -> Option<AbsolutePath> {
    if path.starts_with('/') {
        Some(AbsolutePath { path: path.to_string(), components: path_components(path) })
    } else {
        None
    }
}

fn roots(text: &str, missing: &str) -> Vec<String> {
    let value = config(text);
    installed_marketplace_roots_from_layer_stack(
        Some(&value),
        "/home",
        join_path,
        |name: &str| !name.contains('/'),
        |path: &str| path != missing,
        absolute,
    )
    .into_iter()
    .map(|root| root.path)
    .collect()
}

fn directory(path: &str) -> TempEntry {
    TempEntry {
        path: path.to_string(),
        name: path.rsplit('/').next().map(|name| name.to_string()),
        is_dir: Some(true),
    }
}

#[test]
fn remove_stale_marketplace_temp_dirs_removes_only_matching_old_directories() {
    let install_root = marketplace_install_root("/home", &join_path);
    let staging_root = format!("{install_root}/.staging");
    let stale_upgrade_dir = format!("{staging_root}/marketplace-upgrade-stale");
    let fresh_upgrade_dir = format!("{staging_root}/marketplace-upgrade-fresh");
    let stale_add_dir = format!("{staging_root}/marketplace-add-stale");
    let stale_backup_dir = format!("{install_root}/marketplace-backup-stale");
    let unrelated_staging_dir = format!("{staging_root}/not-a-marketplace-temp-dir");
    let unrelated_install_root_dir = format!("{install_root}/debug");
    let stale_age = MARKETPLACE_STALE_TEMP_DIR_MAX_AGE + 60 * SECOND;
    let age = |path: &str| if path == fresh_upgrade_dir { Some(0) } else { Some(stale_age) };

    let parents = temp_dir_parents(&install_root, &join_path);
    assert_eq!(parents.len(), 2);
    assert_eq!(parents[0].path, staging_root);
    assert_eq!(parents[1].path, install_root);
    let in_staging = vec![
        directory(&stale_upgrade_dir),
        directory(&fresh_upgrade_dir),
        directory(&stale_add_dir),
        directory(&unrelated_staging_dir),
    ];
    let in_install_root = vec![
        directory(&staging_root),
        directory(&stale_backup_dir),
        directory(&unrelated_install_root_dir),
    ];

    assert_eq!(
        leftovers_in(
            &in_staging,
            &parents[0].prefixes,
            MARKETPLACE_STALE_TEMP_DIR_MAX_AGE,
            &age
        ),
        vec![stale_upgrade_dir, stale_add_dir]
    );
    assert_eq!(
        leftovers_in(
            &in_install_root,
            &parents[1].prefixes,
            MARKETPLACE_STALE_TEMP_DIR_MAX_AGE,
            &age
        ),
        vec![stale_backup_dir]
    );
}

#[test]
fn only_directories_of_known_age_are_left_over() {
    let parents = temp_dir_parents("/i", &join_path);
    let mut file = directory("/i/.staging/marketplace-add-1");
    file.is_dir = Some(false);
    let mut unknown = directory("/i/.staging/marketplace-add-2");
    unknown.is_dir = None;
    let mut unnamed = directory("/i/.staging/marketplace-add-3");
    unnamed.name = None;
    let old = directory("/i/.staging/marketplace-add-4");

    assert!(!matches_temp_dir(&file, &parents[0].prefixes));
    assert!(!matches_temp_dir(&unknown, &parents[0].prefixes));
    assert!(!matches_temp_dir(&unnamed, &parents[0].prefixes));
    assert!(matches_temp_dir(&old, &parents[0].prefixes));
    assert!(!matches_temp_dir(&old, &parents[1].prefixes));
    let entries = vec![file, unknown, unnamed, old];
    let none: Vec<String> = Vec::new();
    assert_eq!(leftovers_in(&entries, &parents[0].prefixes, 5, &|_path: &str| None), none);
    assert_eq!(leftovers_in(&entries, &parents[0].prefixes, 5, &|_path: &str| Some(4)), none);
    assert_eq!(
        leftovers_in(&entries, &parents[0].prefixes, 5, &|_path: &str| Some(5)),
        vec!["/i/.staging/marketplace-add-4"]
    );
}

#[test]
fn marketplaces_are_installed_below_the_home_directory() {
    assert_eq!(INSTALLED_MARKETPLACES_DIR, ".tmp/marketplaces");
    assert_eq!(MARKETPLACE_STALE_TEMP_DIR_MAX_AGE, 10 * 60 * SECOND);
    assert_eq!(marketplace_install_root("/home/user", &join_path), "/home/user/.tmp/marketplaces");
}

#[test]
fn a_local_marketplace_stands_where_its_source_is() {
    let resolve = |text: &str| resolve_configured_marketplace_root("tools", &config(text), "/root", &join_path);

    assert_eq!(
        resolve("source_type = \"local\"\nsource = \"/src/tools\""),
        Some("/src/tools".to_string())
    );
    assert_eq!(resolve("source_type = \"local\"\nsource = \"\""), None);
    assert_eq!(resolve("source_type = \"local\"\nsource = 7"), None);
    assert_eq!(resolve("source_type = \"local\""), None);
    assert_eq!(
        resolve("source_type = \"git\"\nsource = \"/src/tools\""),
        Some("/root/tools".to_string())
    );
    assert_eq!(resolve("source = \"/src/tools\""), Some("/root/tools".to_string()));
    assert_eq!(resolve("source_type = 1"), Some("/root/tools".to_string()));
    assert_eq!(
        marketplace_root_of_source("tools", Some("local"), Some("/x"), "/root", &join_path),
        Some("/x".to_string())
    );
    assert_eq!(
        resolve_configured_marketplace_root(
            "tools",
            &toml::Value::Boolean(true),
            "/root",
            &join_path
        ),
        Some("/root/tools".to_string())
    );
}

#[test]
fn configured_marketplaces_are_listed_by_path() {
    let text = "[marketplaces.zeta]\nsource_type = \"git\"\n\
                [marketplaces.alpha]\nsource_type = \"git\"\n\
                [marketplaces.here]\nsource_type = \"local\"\nsource = \"/a/here\"\n\
                [marketplaces.relative]\nsource_type = \"local\"\nsource = \"here\"\n\
                [marketplaces.nowhere]\nsource_type = \"local\"\n\
                [marketplaces.\"not/valid\"]\nsource_type = \"git\"\n\
                [marketplaces.gone]\nsource_type = \"git\"\n";

    assert_eq!(
        roots(text, "/home/.tmp/marketplaces/gone"),
        vec!["/a/here", "/home/.tmp/marketplaces/alpha", "/home/.tmp/marketplaces/zeta"]
    );
}

#[test]
fn entries_that_are_no_tables_are_passed_over() {
    assert_eq!(
        roots("[marketplaces]\nbad = 3\n[marketplaces.good]\n", ""),
        vec!["/home/.tmp/marketplaces/good"]
    );
    assert!(roots("marketplaces = 3\n", "").is_empty());
    assert!(roots("other = 3\n", "").is_empty());
    let nothing = installed_marketplace_roots_from_layer_stack(
        None,
        "/home",
        join_path,
        |_name: &str| true,
        |_path: &str| true,
        absolute,
    );
    assert!(nothing.is_empty());
}

fn backslash_join(base: &str, path: &str) -> String {
    format!("{base}\\{path}")
}

fn drive_path(path: &str) -> Option<AbsolutePath> {
    let (drive, rest) = path.split_once(":\\")?;
    let prefix = PathPrefix { kind: 5, first: drive.to_string(), second: String::new() };
    let mut components = vec![PathComponent::Prefix(prefix), PathComponent::Root];
    components.extend(
        rest.split(['\\', '/']).map(|name| PathComponent::Normal(name.to_string())),
    );
    Some(AbsolutePath { path: path.to_string(), components })
}

#[test]
fn paths_are_joined_and_split_as_the_host_does() {
    assert_eq!(
        marketplace_install_root("C:\\home", &backslash_join),
        "C:\\home\\.tmp/marketplaces"
    );
    assert_eq!(temp_dir_parents("C:\\i", &backslash_join)[0].path, "C:\\i\\.staging");
    let value = config(
        "[marketplaces.b]\nsource_type = \"local\"\nsource = 'D:\\a'\n\
         [marketplaces.a-b]\n\
         [marketplaces.c]\nsource_type = \"local\"\nsource = '/relative/to/drive'\n",
    );
    let roots: Vec<String> = installed_marketplace_roots_from_layer_stack(
        Some(&value),
        "C:\\home",
        backslash_join,
        |_name: &str| true,
        |_path: &str| true,
        drive_path,
    )
    .into_iter()
    .map(|root| root.path)
    .collect();

    assert_eq!(roots, vec!["C:\\home\\.tmp/marketplaces\\a-b", "D:\\a"]);
}

#[test]
fn a_larger_age_limit_leaves_fewer_over() {
    let parents = temp_dir_parents("/i", &join_path);
    let entries = vec![
        directory("/i/.staging/marketplace-add-1"),
        directory("/i/.staging/marketplace-add-2"),
    ];
    let age = |path: &str| if path.ends_with('1') { Some(10) } else { Some(20) };
    let left = |limit| leftovers_in(&entries, &parents[0].prefixes, limit, &age);

    assert_eq!(left(5).len(), 2);
    assert_eq!(left(15), vec!["/i/.staging/marketplace-add-2"]);
    assert!(left(25).is_empty());
}
