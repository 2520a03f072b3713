use std::path::PathBuf;

use codex_tools::path::resolve_path;
use codex_tools::path::AbsolutePathBuf;
use codex_tools::path::PathError;
use codex_tools::permissions::build_macos_seatbelt_profile_extensions;
use codex_tools::permissions::compile_permission_profile;
use codex_tools::permissions::compile_resolved_profile;
use codex_tools::permissions::normalize_permission_path;
use codex_tools::permissions::normalize_permission_paths;
use codex_tools::permissions::resolve_paths;
use codex_tools::permissions::Constrained;
use codex_tools::permissions::FileSystemPermissions;
use codex_tools::permissions::MacOsAutomationPermission;
use codex_tools::permissions::MacOsPreferencesPermission;
use codex_tools::permissions::MacOsSeatbeltProfileExtensions;
use codex_tools::permissions::NetworkPermissions;
use codex_tools::permissions::PermissionProfile;
use codex_tools::permissions::Permissions;
use codex_tools::permissions::ShellEnvironmentPolicy;
use codex_tools::permissions::TargetOs;
use codex_tools::policy::sandbox_policy_tag;
use codex_tools::policy::AskForApproval;
use codex_tools::policy::ReadOnlyAccess;
use codex_tools::policy::SandboxPolicy;

/// Stands for the file system policy that a host derives from a sandbox policy.
#[derive(Debug, PartialEq)]
struct FileSystemSandboxPolicy {
    may_write: bool,
}

impl From<&SandboxPolicy> for FileSystemSandboxPolicy {
    fn from(policy: &SandboxPolicy) -> Self {
        let may_write = match policy {
            SandboxPolicy::ReadOnly { .. } => false,
            _ => true,
        };
        FileSystemSandboxPolicy { may_write }
    }
}

/// Stands for the network policy that a host derives from a sandbox policy.
#[derive(Debug, PartialEq)]
struct NetworkSandboxPolicy {
    enabled: bool,
}

impl From<&SandboxPolicy> for NetworkSandboxPolicy {
    fn from(policy: &SandboxPolicy) -> Self {
        let enabled = match policy {
            SandboxPolicy::ReadOnly { network_access, .. } => *network_access,
            SandboxPolicy::WorkspaceWrite { network_access, .. } => *network_access,
            _ => true,
        };
        NetworkSandboxPolicy { enabled }
    }
}

type Compiled = Permissions<FileSystemSandboxPolicy, NetworkSandboxPolicy>;

fn absolute_path(path: impl Into<PathBuf>) -> AbsolutePathBuf {
    AbsolutePathBuf::from_absolute_path(path.into()).expect("absolute path")
}

fn texts(paths: &[AbsolutePathBuf]) -> Vec<&str> {
    paths.iter().map(|path| path.as_path().to_str().expect("Unicode")).collect()
}

fn resolved_to(path: &str) -> Option<PathBuf> {
    Some(PathBuf::from(path))
}

fn expected(
    policy: SandboxPolicy,
    extensions: Option<MacOsSeatbeltProfileExtensions>,
) -> Compiled {
    Permissions {
        approval_policy: Constrained::allow_any(AskForApproval::Never),
        file_system_sandbox_policy: FileSystemSandboxPolicy::from(&policy),
        network_sandbox_policy: NetworkSandboxPolicy::from(&policy),
        sandbox_policy: Constrained::allow_any(policy),
        network: None,
        allow_login_shell: true,
        shell_environment_policy: ShellEnvironmentPolicy {},
        windows_sandbox_mode: None,
        macos_seatbelt_profile_extensions: extensions,
    }
}

fn network_on() -> Option<NetworkPermissions> {
    Some(NetworkPermissions { enabled: Some(true) })
}

#[test]
fn compile_permission_profile_normalizes_paths() {
    let profile = PermissionProfile {
        network: network_on(),
        file_system: Some(FileSystemPermissions {
            read: Some(vec![
                absolute_path("/tmp"),
                absolute_path("/tmp"),
                absolute_path("/tmp/../tmp"),
            ]),
            write: Some(vec![absolute_path("/no-such-directory/output")]),
        }),
        ..Default::default()
    };
    let canonical = dunce::canonicalize("/tmp").expect("a directory");
    let compiled: Compiled =
        compile_permission_profile(Some(profile), TargetOs::OtherUnix).expect("profile");
    assert_eq!(
        compiled,
        expected(
            SandboxPolicy::WorkspaceWrite {
                writable_roots: vec![absolute_path("/no-such-directory/output")],
                read_only_access: ReadOnlyAccess::Restricted {
                    include_platform_defaults: true,
                    readable_roots: vec![absolute_path(canonical)],
                },
                network_access: true,
                exclude_tmpdir_env_var: false,
                exclude_slash_tmp: false,
            },
            None,
        )
    );
}

#[test]
fn compile_permission_profile_without_permissions_has_empty_profile() {
    let compiled: Option<Compiled> = compile_permission_profile(None, TargetOs::OtherUnix);
    assert_eq!(compiled, None);
}

#[test]
fn compile_permission_profile_with_network_only_uses_read_only_policy() {
    let profile = PermissionProfile { network: network_on(), ..Default::default() };
    let compiled: Compiled =
        compile_permission_profile(Some(profile), TargetOs::OtherUnix).expect("profile");
    assert_eq!(
        compiled,
        expected(
            SandboxPolicy::ReadOnly { access: ReadOnlyAccess::FullAccess, network_access: true },
            None,
        )
    );
}

#[test]
fn compile_permission_profile_with_network_and_read_only_paths_uses_read_only_policy() {
    let read_dir = "/tmp";
    let canonical = dunce::canonicalize(read_dir).unwrap_or(PathBuf::from(read_dir));
    let profile = PermissionProfile {
        network: network_on(),
        file_system: Some(FileSystemPermissions {
            read: Some(vec![absolute_path(read_dir)]),
            write: Some(Vec::new()),
        }),
        ..Default::default()
    };
    let compiled: Compiled =
        compile_permission_profile(Some(profile), TargetOs::OtherUnix).expect("profile");
    assert_eq!(
        compiled,
        expected(
            SandboxPolicy::ReadOnly {
                access: ReadOnlyAccess::Restricted {
                    include_platform_defaults: true,
                    readable_roots: vec![absolute_path(canonical)],
                },
                network_access: true,
            },
            None,
        )
    );
}

#[test]
fn compile_permission_profile_builds_macos_permission_file() {
    let profile = PermissionProfile {
        macos: Some(MacOsSeatbeltProfileExtensions {
            macos_preferences: MacOsPreferencesPermission::ReadWrite,
            macos_automation: MacOsAutomationPermission::BundleIds(vec![
                "com.apple.Notes".to_string()
            ]),
            macos_accessibility: true,
            macos_calendar: true,
        }),
        ..Default::default()
    };
    let compiled: Compiled =
        compile_permission_profile(Some(profile), TargetOs::MacOs).expect("profile");
    assert_eq!(
        compiled.macos_seatbelt_profile_extensions,
        Some(MacOsSeatbeltProfileExtensions {
            macos_preferences: MacOsPreferencesPermission::ReadWrite,
            macos_automation: MacOsAutomationPermission::BundleIds(vec![
                "com.apple.Notes".to_string()
            ]),
            macos_accessibility: true,
            macos_calendar: true,
        })
    );
}

#[test]
fn compile_permission_profile_uses_macos_defaults_when_values_missing() {
    let compiled: Compiled =
        compile_permission_profile(Some(PermissionProfile::default()), TargetOs::MacOs)
            .expect("profile");
    assert_eq!(
        compiled.macos_seatbelt_profile_extensions,
        Some(MacOsSeatbeltProfileExtensions::default())
    );
}

#[test]
fn paths_are_resolved_by_the_file_system() {
    let profile = PermissionProfile {
        file_system: Some(FileSystemPermissions {
            read: Some(vec![absolute_path("/.."), absolute_path("/")]),
            write: Some(vec![absolute_path("/no-such-directory/../out")]),
        }),
        ..Default::default()
    };
    let compiled: Compiled =
        compile_permission_profile(Some(profile), TargetOs::OtherUnix).expect("profile");
    let SandboxPolicy::WorkspaceWrite { writable_roots, read_only_access, network_access, .. } =
        compiled.sandbox_policy.value
    else {
        panic!("expected workspace write");
    };
    assert_eq!(texts(&writable_roots), ["/no-such-directory/../out"]);
    assert!(!network_access);
    let ReadOnlyAccess::Restricted { readable_roots, .. } = read_only_access else {
        panic!("expected restricted access");
    };
    assert_eq!(texts(&readable_roots), ["/"]);
}

#[test]
fn paths_that_resolve_alike_are_one_root() {
    for target in [TargetOs::MacOs, TargetOs::OtherUnix] {
        let profile = PermissionProfile {
            network: network_on(),
            file_system: Some(FileSystemPermissions {
                read: Some(vec![
                    absolute_path("/tmp/skill/data"),
                    absolute_path("/tmp/skill/data"),
                    absolute_path("/tmp/skill/scripts/../data"),
                ]),
                write: Some(vec![absolute_path("/tmp/skill/output")]),
            }),
            ..Default::default()
        };
        let data = resolved_to("/tmp/skill/data");
        let compiled: Compiled = compile_resolved_profile(
            profile,
            vec![data.clone(), data.clone(), data],
            vec![None],
            target,
        );
        let extensions = match target {
            TargetOs::MacOs => Some(MacOsSeatbeltProfileExtensions::default()),
            TargetOs::OtherUnix => None,
        };
        assert_eq!(
            compiled,
            expected(
                SandboxPolicy::WorkspaceWrite {
                    writable_roots: vec![absolute_path("/tmp/skill/output")],
                    read_only_access: ReadOnlyAccess::Restricted {
                        include_platform_defaults: true,
                        readable_roots: vec![absolute_path("/tmp/skill/data")],
                    },
                    network_access: true,
                    exclude_tmpdir_env_var: false,
                    exclude_slash_tmp: false,
                },
                extensions,
            )
        );
    }
}

#[test]
fn each_path_is_resolved_for_itself() {
    let resolved = resolve_paths(&vec![
        absolute_path("/.."),
        absolute_path("/no-such-directory"),
        absolute_path("/./"),
    ]);
    assert_eq!(resolved, [resolved_to("/"), None, resolved_to("/")]);
    assert_eq!(resolve_path(&PathBuf::from("/..")), resolved_to("/"));
}

#[test]
fn writing_without_reading_may_read_everything() {
    let profile = PermissionProfile {
        network: Some(NetworkPermissions { enabled: None }),
        file_system: Some(FileSystemPermissions {
            read: None,
            write: Some(vec![absolute_path("/out")]),
        }),
        macos: None,
    };
    let compiled: Compiled =
        compile_resolved_profile(profile, vec![], vec![None], TargetOs::OtherUnix);
    assert_eq!(
        compiled,
        expected(
            SandboxPolicy::WorkspaceWrite {
                writable_roots: vec![absolute_path("/out")],
                read_only_access: ReadOnlyAccess::FullAccess,
                network_access: false,
                exclude_tmpdir_env_var: false,
                exclude_slash_tmp: false,
            },
            None,
        )
    );
}

#[test]
fn compiled_permissions_are_confined() {
    let profile = PermissionProfile { network: None, file_system: None, macos: None };
    let compiled: Compiled = compile_resolved_profile(profile, vec![], vec![], TargetOs::OtherUnix);
    assert_eq!(sandbox_policy_tag(&compiled.sandbox_policy.value), "read-only");
    assert_eq!(compiled.approval_policy.value, AskForApproval::Never);
    assert!(!compiled.network_sandbox_policy.enabled);
}

#[test]
fn a_path_that_resolves_to_no_absolute_path_is_left_out() {
    let value = absolute_path("/given");
    assert_eq!(normalize_permission_path(&value, resolved_to("elsewhere")), None);
    assert_eq!(
        normalize_permission_path(&value, resolved_to("/real")).expect("path"),
        absolute_path("/real")
    );
    assert_eq!(normalize_permission_path(&value, None).expect("path"), absolute_path("/given"));
    assert_eq!(value.to_path_buf(), PathBuf::from("/given"));
}

#[test]
fn paths_are_kept_once_and_in_order() {
    let values = vec![
        absolute_path("/b"),
        absolute_path("/a"),
        absolute_path("/b/."),
        absolute_path("//a/"),
        absolute_path("/c"),
    ];
    let paths = normalize_permission_paths(&values, vec![None, None, None, None, None]);
    assert_eq!(texts(&paths), ["/b", "/a", "/c"]);
    let again = normalize_permission_paths(&paths, vec![None, None, None]);
    assert_eq!(texts(&again), ["/b", "/a", "/c"]);
}

#[test]
fn only_absolute_paths_are_absolute() {
    for path in ["relative", ""] {
        let refused = AbsolutePathBuf::from_absolute_path(PathBuf::from(path));
        assert_eq!(refused, Err(PathError::NotAbsolute));
    }
    assert_eq!(texts(&[absolute_path("/x")]), ["/x"]);
}

#[test]
fn paths_are_equal_by_their_components() {
    assert!(absolute_path("/a//b/./c/") == absolute_path("/a/b/c"));
    assert!(absolute_path("/a/../b") != absolute_path("/b"));
    assert!(absolute_path("/a") != absolute_path("/A"));
}

#[test]
fn extensions_are_for_macos_only() {
    let extensions = MacOsSeatbeltProfileExtensions::default();
    assert_eq!(build_macos_seatbelt_profile_extensions(extensions, TargetOs::OtherUnix), None);
    let kept = build_macos_seatbelt_profile_extensions(
        MacOsSeatbeltProfileExtensions::default(),
        TargetOs::MacOs,
    );
    assert_eq!(kept, Some(MacOsSeatbeltProfileExtensions::default()));
}
