use codex_core::env_map::EnvMap;
use codex_core::order::text_precedes;
use codex_core::paths::{
    component_count, components_precede, join_path, path_components, PathComponent, PathPrefix,
};
use codex_core::text::{
    decimal_text, join_lines, replace_char, same_text, starts_with, take_bytes_at_char_boundary,
};

fn env(pairs: &[(&str, &str)]) -> EnvMap {
    let mut env = EnvMap::new();
    for (name, value) in pairs {
        env.insert(name.to_string(), value.to_string());
    }
    env
}

#[test]
fn joining_keeps_one_separator_and_lets_absolute_paths_win() {
    assert_eq!(join_path("/a", "b"), "/a/b");
    assert_eq!(join_path("/a/", "b"), "/a/b");
    assert_eq!(join_path("/a", "/b"), "/b");
    assert_eq!(join_path("", "b"), "b");
    assert_eq!(join_path("/a", ""), "/a/");
}

#[test]
fn joining_a_plain_name_adds_one_component() {
    for base in ["", "/", "/a", "a/b", "/a/"] {
        assert_eq!(component_count(&join_path(base, "name")), component_count(base) + 1);
    }
}

#[test]
fn components_leave_out_what_does_not_count() {
    let names: Vec<String> = path_components("/a//b/./c/..")
        .iter()
        .map(|part| match part {
            PathComponent::Normal(name) => name.clone(),
            PathComponent::Prefix(prefix) => prefix.first.clone(),
            PathComponent::Root => "root".to_string(),
            PathComponent::Current => "here".to_string(),
            PathComponent::Parent => "up".to_string(),
        })
        .collect();

    assert_eq!(names, vec!["root", "a", "b", "c", "up"]);
    assert_eq!(component_count(""), 0);
    assert_eq!(component_count("./a"), 2);
    assert_eq!(component_count("a/."), 1);
}

fn path_precedes(a: &str, b: &str) -> bool {
    components_precede(&path_components(a), &path_components(b))
}

#[test]
fn paths_are_ordered_by_component() {
    assert!(path_precedes("/a/b", "/a-b"));
    assert!(!path_precedes("/a-b", "/a/b"));
    assert!(path_precedes("/a", "/a/b"));
    assert!(path_precedes("/a/b", "/a//b"));
    assert!(path_precedes("/a//b", "/a/b"));
    assert!(text_precedes("/a-b", "/a/b"));
}

#[test]
fn prefixes_are_ordered_by_kind_and_then_by_their_parts() {
    let prefix = |kind, first: &str, second: &str| {
        vec![PathComponent::Prefix(PathPrefix {
            kind,
            first: first.to_string(),
            second: second.to_string(),
        })]
    };

    assert!(components_precede(&prefix(4, "z", "z"), &prefix(5, "a", "")));
    assert!(!components_precede(&prefix(5, "D", ""), &prefix(5, "C", "")));
    assert!(components_precede(&prefix(4, "s", "a"), &prefix(4, "s", "b")));
    assert!(!components_precede(&prefix(4, "t", "a"), &prefix(4, "s", "b")));
    assert!(components_precede(&prefix(5, "C", ""), &vec![PathComponent::Root]));
    assert!(!components_precede(&vec![PathComponent::Root], &prefix(5, "C", "")));
}

#[test]
fn text_is_cut_replaced_and_compared_by_character() {
    assert_eq!(take_bytes_at_char_boundary("aé", 2), "a");
    assert_eq!(take_bytes_at_char_boundary("aé", 3), "aé");
    assert_eq!(take_bytes_at_char_boundary("abc", 0), "");
    assert_eq!(replace_char("a\\b", '\\', '/'), "a/b");
    assert!(same_text("é", "é"));
    assert!(!same_text("a", "ab"));
    assert!(starts_with("marketplace-add-1", "marketplace-add-"));
    assert!(!starts_with("market", "marketplace"));
    assert!(starts_with("x", ""));
    assert_eq!(decimal_text(0), "0");
    assert_eq!(decimal_text(1250), "1250");
    assert_eq!(join_lines(&vec!["a".to_string(), "b".to_string()]), "a\nb");
    assert_eq!(join_lines(&Vec::new()), "");
}

#[test]
fn later_variables_take_precedence() {
    let mut base = env(&[("A", "1"), ("B", "2")]);
    base.extend(&env(&[("B", "3"), ("C", "4")]));

    assert_eq!(base.get("A"), Some(&"1".to_string()));
    assert_eq!(base.get("B"), Some(&"3".to_string()));
    assert_eq!(base.get("C"), Some(&"4".to_string()));
    assert_eq!(base.get("D"), None);
    assert_eq!(base.pairs().len(), 3);
    assert!(EnvMap::new().pairs().is_empty());
}

#[test]
fn only_added_variables_differ_from_the_base() {
    let base = env(&[("A", "1"), ("B", "2")]);
    let mut full = base.clone();
    full.extend(&env(&[("B", "3"), ("A", "1"), ("C", "4")]));

    let kept = full.differing_from(&base);

    assert_eq!(kept.pairs().len(), 2);
    assert_eq!(kept.get("B"), Some(&"3".to_string()));
    assert_eq!(kept.get("C"), Some(&"4".to_string()));
    let mut restored = base.clone();
    restored.extend(&kept);
    for (name, value) in full.pairs() {
        assert_eq!(restored.get(name), Some(value));
    }
}
