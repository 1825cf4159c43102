use codex_core::permissions::{
    accept_normalized_permissions, apply_granted_turn_permissions, consults_grants,
    implicit_granted_permissions, normalize_and_validate_additional_permissions,
    permissions_are_preapproved, validate_additional_permissions, EffectiveAdditionalPermissions,
};
use codex_core::profile::{
    AdditionalPermissionProfile, AskForApproval, FileSystemAccessMode, FileSystemPath,
    FileSystemPermissions, FileSystemSandboxEntry, FileSystemSpecialPath, GranularApprovalConfig,
    NetworkPermissions, SandboxPermissions,
};

const CWD: &str = "/work/project";

fn network_permissions() -> AdditionalPermissionProfile {
    AdditionalPermissionProfile {
        network: Some(NetworkPermissions { enabled: Some(true) }),
        file_system: None,
    }
}

fn file_system_permissions(path: &str) -> AdditionalPermissionProfile {
    AdditionalPermissionProfile {
        network: None,
        file_system: Some(FileSystemPermissions {
            entries: vec![FileSystemSandboxEntry {
                path: FileSystemPath::Path { path: path.to_string() },
                access: FileSystemAccessMode::Write,
            }],
            glob_scan_max_depth: None,
        }),
    }
}

fn empty_permissions() -> AdditionalPermissionProfile {
    AdditionalPermissionProfile { network: None, file_system: None }
}

/// Puts relative patterns behind the directory.
fn materialize(profile: &AdditionalPermissionProfile, cwd: &str) -> AdditionalPermissionProfile {
    let mut made = profile.clone();
    if let Some(file_system) = made.file_system.as_mut() {
        let mut entries: Vec<FileSystemSandboxEntry> = Vec::new();
        for entry in file_system.entries.iter() {
            let path = match &entry.path {
                FileSystemPath::GlobPattern { pattern } if !pattern.starts_with('/') => {
                    FileSystemPath::GlobPattern { pattern: format!("{cwd}/{pattern}") }
                }
                other => other.clone(),
            };
            let entry = FileSystemSandboxEntry { path, access: entry.access };
            if !entries.contains(&entry) {
                entries.push(entry);
            }
        }
        file_system.entries = entries;
    }
    made
}

/// Keeps of the first profile what is in the second as well.
fn intersect(
    requested: &AdditionalPermissionProfile,
    granted: &AdditionalPermissionProfile,
    cwd: &str,
) -> AdditionalPermissionProfile {
    let requested = materialize(requested, cwd);
    let granted = materialize(granted, cwd);
    let network = match (requested.network, granted.network) {
        (Some(a), Some(b)) if a == b => Some(a),
        _ => None,
    };
    let file_system = match (requested.file_system, granted.file_system) {
        (Some(a), Some(b)) => {
            let glob_scan_max_depth = a.glob_scan_max_depth;
            let entries: Vec<FileSystemSandboxEntry> =
                a.entries.into_iter().filter(|entry| b.entries.contains(entry)).collect();
            if entries.is_empty() {
                None
            } else {
                Some(FileSystemPermissions { entries, glob_scan_max_depth })
            }
        }
        _ => None,
    };
    AdditionalPermissionProfile { network, file_system }
}

/// Joins what is in either profile.
fn merge(
    base: Option<&AdditionalPermissionProfile>,
    added: Option<&AdditionalPermissionProfile>,
) -> Option<AdditionalPermissionProfile> {
    match (base, added) {
        (None, None) => None,
        (Some(one), None) | (None, Some(one)) => Some(one.clone()),
        (Some(a), Some(b)) => {
            let mut joined = a.clone();
            if joined.network.is_none() {
                joined.network = b.network;
            }
            if let Some(more) = &b.file_system {
                match joined.file_system.as_mut() {
                    Some(file_system) => {
                        for entry in more.entries.iter() {
                            if !file_system.entries.contains(entry) {
                                file_system.entries.push(entry.clone());
                            }
                        }
                    }
                    None => joined.file_system = Some(more.clone()),
                }
            }
            Some(joined)
        }
    }
}

#[test]
fn preapproved_permissions_work_when_request_permissions_tool_is_enabled_without_exec_permission_approvals_feature(
) {
    let normalized = normalize_and_validate_additional_permissions(
        false,
        AskForApproval::Granular(GranularApprovalConfig {
            sandbox_approval: true,
            rules: true,
            skill_approval: true,
            request_permissions: false,
            mcp_elicitations: true,
        }),
        SandboxPermissions::WithAdditionalPermissions,
        Some(network_permissions()),
        true,
        Ok,
    )
    .expect("preapproved permissions should be allowed");

    assert_eq!(normalized, Some(network_permissions()));
}

#[test]
fn fresh_additional_permissions_still_require_exec_permission_approvals_feature() {
    let err = normalize_and_validate_additional_permissions(
        false,
        AskForApproval::OnRequest,
        SandboxPermissions::WithAdditionalPermissions,
        Some(network_permissions()),
        false,
        Ok,
    )
    .expect_err("fresh inline permission requests should remain disabled");

    assert_eq!(
        err,
        "additional permissions are disabled; enable `features.exec_permission_approvals` before using `with_additional_permissions`"
    );
}

#[test]
fn implicit_sticky_grants_bypass_inline_permission_validation() {
    let granted_permissions = file_system_permissions(CWD);
    let implicit_permissions = implicit_granted_permissions(
        SandboxPermissions::UseDefault,
        None,
        &EffectiveAdditionalPermissions {
            sandbox_permissions: SandboxPermissions::WithAdditionalPermissions,
            additional_permissions: Some(granted_permissions.clone()),
            permissions_preapproved: false,
        },
    );

    assert_eq!(implicit_permissions, Some(granted_permissions));
}

#[test]
fn explicit_inline_permissions_do_not_use_implicit_sticky_grant_path() {
    let requested_permissions = file_system_permissions(CWD);
    let implicit_permissions = implicit_granted_permissions(
        SandboxPermissions::WithAdditionalPermissions,
        Some(&requested_permissions),
        &EffectiveAdditionalPermissions {
            sandbox_permissions: SandboxPermissions::WithAdditionalPermissions,
            additional_permissions: Some(requested_permissions.clone()),
            permissions_preapproved: false,
        },
    );

    assert_eq!(implicit_permissions, None);
}

#[test]
fn relative_deny_glob_grants_remain_preapproved_after_materialization() {
    let requested_permissions = AdditionalPermissionProfile {
        network: None,
        file_system: Some(FileSystemPermissions {
            entries: vec![
                FileSystemSandboxEntry {
                    path: FileSystemPath::Special {
                        value: FileSystemSpecialPath {
                            role: "project_roots".to_string(),
                            subpath: None,
                        },
                    },
                    access: FileSystemAccessMode::Write,
                },
                FileSystemSandboxEntry {
                    path: FileSystemPath::GlobPattern { pattern: "**/*.env".to_string() },
                    access: FileSystemAccessMode::NoAccess,
                },
            ],
            glob_scan_max_depth: None,
        }),
    };
    let stored_grant = intersect(&requested_permissions, &requested_permissions, CWD);
    let effective_permissions =
        merge(Some(&requested_permissions), Some(&stored_grant)).expect("merged permissions");

    assert_ne!(stored_grant, requested_permissions);
    assert!(permissions_are_preapproved(&effective_permissions, &stored_grant, CWD, intersect));
}

#[test]
fn a_wider_request_is_not_preapproved() {
    let granted = file_system_permissions("/a");
    let asked = merge(Some(&granted), Some(&network_permissions())).expect("merged permissions");

    assert!(permissions_are_preapproved(&granted, &granted, CWD, intersect));
    assert!(!permissions_are_preapproved(&asked, &granted, CWD, intersect));
}

#[test]
fn what_was_granted_is_preapproved_whatever_the_directory() {
    let profiles = [
        network_permissions(),
        file_system_permissions("/a"),
        empty_permissions(),
    ];
    for granted in profiles {
        for cwd in ["/", CWD] {
            assert!(permissions_are_preapproved(&granted.clone(), &granted, cwd, intersect));
        }
    }
}

#[test]
fn every_fault_of_a_request_has_its_message() {
    let asks = SandboxPermissions::WithAdditionalPermissions;
    let refused = |allowed, policy, sandbox, permissions| {
        validate_additional_permissions(allowed, policy, sandbox, permissions, false)
            .expect_err("the request is refused")
    };

    assert_eq!(
        refused(true, AskForApproval::Never, asks, Some(network_permissions())),
        "approval policy is Never; reject command — you cannot request additional permissions unless the approval policy is OnRequest"
    );
    assert_eq!(
        refused(true, AskForApproval::OnRequest, asks, None),
        "missing `additional_permissions`; provide at least one of `network` or `file_system` when using `with_additional_permissions`"
    );
    assert_eq!(
        refused(
            true,
            AskForApproval::OnRequest,
            SandboxPermissions::UseDefault,
            Some(network_permissions())
        ),
        "`additional_permissions` requires `sandbox_permissions` set to `with_additional_permissions`"
    );
    assert_eq!(
        accept_normalized_permissions(Ok(empty_permissions()))
            .expect_err("permissions that ask for nothing are refused"),
        "`additional_permissions` must include at least one requested permission in `network` or `file_system`"
    );
    assert_eq!(
        accept_normalized_permissions(Err("bad path".to_string())),
        Err("bad path".to_string())
    );
}

#[test]
fn a_granular_policy_is_named_with_its_settings() {
    let policy = AskForApproval::Granular(GranularApprovalConfig {
        sandbox_approval: true,
        rules: false,
        skill_approval: true,
        request_permissions: false,
        mcp_elicitations: true,
    });

    assert_eq!(
        policy.name(),
        "Granular(GranularApprovalConfig { sandbox_approval: true, rules: false, skill_approval: true, request_permissions: false, mcp_elicitations: true })"
    );
    assert_eq!(AskForApproval::UnlessTrusted.name(), "UnlessTrusted");
    assert_eq!(AskForApproval::OnFailure.name(), "OnFailure");
}

#[test]
fn a_command_without_permissions_passes_unchanged() {
    let checked = normalize_and_validate_additional_permissions(
        false,
        AskForApproval::Never,
        SandboxPermissions::UseDefault,
        None,
        false,
        |_profile| Err("nothing is to be normalized".to_string()),
    );

    assert_eq!(checked, Ok(None));
}

#[test]
fn an_escalated_command_takes_nothing_from_what_was_granted() {
    assert!(!consults_grants(SandboxPermissions::RequireEscalated));
    assert!(consults_grants(SandboxPermissions::UseDefault));
    let effective = apply_granted_turn_permissions(
        Some(&network_permissions()),
        Some(&network_permissions()),
        CWD,
        SandboxPermissions::RequireEscalated,
        None,
        merge,
        intersect,
    );

    assert_eq!(effective.sandbox_permissions, SandboxPermissions::RequireEscalated);
    assert_eq!(effective.additional_permissions, None);
    assert!(!effective.permissions_preapproved);
}

#[test]
fn granted_permissions_widen_the_sandbox_of_a_plain_command() {
    let effective = apply_granted_turn_permissions(
        Some(&network_permissions()),
        Some(&file_system_permissions("/a")),
        CWD,
        SandboxPermissions::UseDefault,
        None,
        merge,
        intersect,
    );

    assert_eq!(effective.sandbox_permissions, SandboxPermissions::WithAdditionalPermissions);
    assert_eq!(
        effective.additional_permissions,
        merge(Some(&network_permissions()), Some(&file_system_permissions("/a")))
    );
    assert!(effective.permissions_preapproved);
}

#[test]
fn fresh_permissions_beyond_a_grant_are_not_preapproved() {
    let effective = apply_granted_turn_permissions(
        None,
        Some(&file_system_permissions("/a")),
        CWD,
        SandboxPermissions::WithAdditionalPermissions,
        Some(network_permissions()),
        merge,
        intersect,
    );

    assert_eq!(effective.sandbox_permissions, SandboxPermissions::WithAdditionalPermissions);
    assert!(!effective.permissions_preapproved);

    let ungranted = apply_granted_turn_permissions(
        None,
        None,
        CWD,
        SandboxPermissions::UseDefault,
        None,
        merge,
        intersect,
    );
    assert_eq!(ungranted.sandbox_permissions, SandboxPermissions::UseDefault);
    assert!(!ungranted.permissions_preapproved);
}

#[test]
fn profiles_are_compared_by_what_they_say() {
    assert!(network_permissions().same(&network_permissions()));
    assert!(!network_permissions().same(&empty_permissions()));
    assert!(!file_system_permissions("/a").same(&file_system_permissions("/b")));
    assert!(empty_permissions().is_empty());
    assert!(!network_permissions().is_empty());
    assert!(SandboxPermissions::RequireEscalated.requests_sandbox_override());
    assert!(!SandboxPermissions::default().requests_sandbox_override());
}
