//! Compiling the permission profile of a skill into the permissions it runs with.

use std::path::PathBuf;

use vstd::prelude::*;

use crate::path::is_absolute_path;
use crate::path::may_answer;
use crate::path::opt_path;
use crate::path::path_bytes;
use crate::path::path_list;
use crate::path::path_names;
use crate::path::resolve_path;
use crate::path::same_path;
use crate::path::AbsolutePathBuf;
use crate::policy::AccessModel;
use crate::policy::AskForApproval;
use crate::policy::PolicyModel;
use crate::policy::ReadOnlyAccess;
use crate::policy::SandboxPolicy;

verus! {

/// Whether a skill asks for the network.
#[derive(Clone, Copy, Debug, PartialEq, Eq, Structural)]
pub struct NetworkPermissions {
    pub enabled: Option<bool>,
}

/// The paths that a skill asks to read and to write.
#[derive(Debug, PartialEq)]
pub struct FileSystemPermissions {
    pub read: Option<Vec<AbsolutePathBuf>>,
    pub write: Option<Vec<AbsolutePathBuf>>,
}

/// Access to the preferences of macOS.
#[derive(Clone, Copy, Debug, PartialEq, Eq, Structural)]
pub enum MacOsPreferencesPermission {
    NoAccess,
    ReadOnly,
    ReadWrite,
}

/// Which programs of macOS may be automated.
#[derive(Debug, PartialEq, Eq)]
pub enum MacOsAutomationPermission {
    NoAccess,
    All,
    BundleIds(Vec<String>),
}

/// What the Seatbelt sandbox of macOS grants on top of the sandbox policy.
#[derive(Debug, PartialEq, Eq)]
pub struct MacOsSeatbeltProfileExtensions {
    pub macos_preferences: MacOsPreferencesPermission,
    pub macos_automation: MacOsAutomationPermission,
    pub macos_accessibility: bool,
    pub macos_calendar: bool,
}

/// What a skill asks for.
#[derive(Debug, PartialEq)]
pub struct PermissionProfile {
    pub network: Option<NetworkPermissions>,
    pub file_system: Option<FileSystemPermissions>,
    pub macos: Option<MacOsSeatbeltProfileExtensions>,
}

/// A setting, with the values that it may later be changed to: here, any.
#[derive(Debug, PartialEq)]
pub struct Constrained<T> {
    pub value: T,
}

impl<T> Constrained<T> {
    /// A setting that may be changed to any value.
    pub fn allow_any(value: T) -> (constrained: Constrained<T>)
        ensures
            constrained.value == value,
    {
        Constrained { value }
    }
}

/// Which environment variables commands inherit: the default choice.
#[derive(Clone, Copy, Debug, PartialEq, Eq, Structural)]
pub struct ShellEnvironmentPolicy {}

/// The system that commands run on.
#[derive(Clone, Copy, Debug, PartialEq, Eq, Structural)]
pub enum TargetOs {
    MacOs,
    OtherUnix,
}

/// The permissions that a skill runs with. `F` and `N` are the file system policy and the
/// network policy that the sandbox policy stands for.
#[derive(Debug, PartialEq)]
pub struct Permissions<F, N> {
    pub approval_policy: Constrained<AskForApproval>,
    pub sandbox_policy: Constrained<SandboxPolicy>,
    pub file_system_sandbox_policy: F,
    pub network_sandbox_policy: N,
    pub network: Option<String>,
    pub allow_login_shell: bool,
    pub shell_environment_policy: ShellEnvironmentPolicy,
    pub windows_sandbox_mode: Option<String>,
    pub macos_seatbelt_profile_extensions: Option<MacOsSeatbeltProfileExtensions>,
}

/// What Seatbelt grants to a profile that says nothing about macOS.
pub open spec fn default_extensions() -> MacOsSeatbeltProfileExtensions {
    MacOsSeatbeltProfileExtensions {
        macos_preferences: MacOsPreferencesPermission::ReadOnly,
        macos_automation: MacOsAutomationPermission::NoAccess,
        macos_accessibility: false,
        macos_calendar: false,
    }
}

impl Default for MacOsSeatbeltProfileExtensions {
    fn default() -> (extensions: MacOsSeatbeltProfileExtensions)
        ensures
            extensions == default_extensions(),
    {
        MacOsSeatbeltProfileExtensions {
            macos_preferences: MacOsPreferencesPermission::ReadOnly,
            macos_automation: MacOsAutomationPermission::NoAccess,
            macos_accessibility: false,
            macos_calendar: false,
        }
    }
}

impl Default for PermissionProfile {
    fn default() -> (profile: PermissionProfile)
        ensures
            profile == (PermissionProfile { network: None, file_system: None, macos: None }),
    {
        PermissionProfile { network: None, file_system: None, macos: None }
    }
}

/// What the file system said about a list of paths: for each, the path it resolves to.
pub open spec fn resolutions(resolved: Seq<Option<PathBuf>>) -> Seq<Option<Seq<u8>>> {
    Seq::new(resolved.len(), |i: int| opt_path(resolved[i]))
}

/// The path that counts: the resolved one, or the path as given where it does not resolve.
pub open spec fn chosen_path(value: Seq<u8>, resolved: Option<Seq<u8>>) -> Seq<u8> {
    match resolved {
        Some(path) => path,
        None => value,
    }
}

/// The paths that count, one for each path given.
pub open spec fn chosen_paths(
    values: Seq<Seq<u8>>,
    resolved: Seq<Option<Seq<u8>>>,
) -> Seq<Seq<u8>> {
    Seq::new(values.len(), |i: int| chosen_path(values[i], resolved[i]))
}

/// Whether a list of paths has a path that equals the given one.
pub open spec fn has_path(paths: Seq<Seq<u8>>, path: Seq<u8>) -> bool {
    exists|i: int| 0 <= i < paths.len() && same_path(#[trigger] paths[i], path)
}

/// The absolute paths of a list, in their order, each at its first occurrence only.
pub open spec fn distinct_paths(paths: Seq<Seq<u8>>) -> Seq<Seq<u8>>
    decreases paths.len(),
{
    if paths.len() == 0 {
        Seq::empty()
    } else {
        let before = distinct_paths(paths.drop_last());
        if is_absolute_path(paths.last()) && !has_path(before, paths.last()) {
            before.push(paths.last())
        } else {
            before
        }
    }
}

/// The paths that a profile asks to read.
pub open spec fn requested_read(profile: PermissionProfile) -> Seq<Seq<u8>> {
    match profile.file_system {
        Some(FileSystemPermissions { read: Some(paths), .. }) => path_list(paths@),
        _ => Seq::empty(),
    }
}

/// The paths that a profile asks to write.
pub open spec fn requested_write(profile: PermissionProfile) -> Seq<Seq<u8>> {
    match profile.file_system {
        Some(FileSystemPermissions { write: Some(paths), .. }) => path_list(paths@),
        _ => Seq::empty(),
    }
}

/// Whether a profile asks for the network.
pub open spec fn requested_network(profile: PermissionProfile) -> bool {
    profile.network matches Some(network) && network.enabled == Some(true)
}

/// What may be read, given the paths to read: everything, where none is given.
pub open spec fn access_to(read: Seq<Seq<u8>>) -> AccessModel {
    if read.len() == 0 {
        AccessModel::FullAccess
    } else {
        AccessModel::Restricted { include_platform_defaults: true, readable_roots: read }
    }
}

/// The sandbox policy that grants the given paths and the network.
pub open spec fn sandbox_for(
    read: Seq<Seq<u8>>,
    write: Seq<Seq<u8>>,
    network_access: bool,
) -> PolicyModel {
    if write.len() == 0 {
        PolicyModel::ReadOnly { access: access_to(read), network_access }
    } else {
        PolicyModel::WorkspaceWrite {
            writable_roots: write,
            read_only_access: access_to(read),
            network_access,
            exclude_tmpdir_env_var: false,
            exclude_slash_tmp: false,
        }
    }
}

/// The sandbox policy of a profile, given what its paths resolve to.
pub open spec fn profile_policy(
    profile: PermissionProfile,
    read: Seq<Option<Seq<u8>>>,
    write: Seq<Option<Seq<u8>>>,
) -> PolicyModel {
    sandbox_for(
        distinct_paths(chosen_paths(requested_read(profile), read)),
        distinct_paths(chosen_paths(requested_write(profile), write)),
        requested_network(profile),
    )
}

/// The Seatbelt extensions of a profile.
pub open spec fn profile_extensions(
    profile: PermissionProfile,
    target: TargetOs,
) -> Option<MacOsSeatbeltProfileExtensions> {
    match target {
        TargetOs::MacOs => Some(
            match profile.macos {
                Some(extensions) => extensions,
                None => default_extensions(),
            },
        ),
        TargetOs::OtherUnix => None,
    }
}

/// Whether `permissions` is what `profile` compiles to, given what its paths resolve to.
pub open spec fn compiles_to<F, N>(
    profile: PermissionProfile,
    read: Seq<Option<Seq<u8>>>,
    write: Seq<Option<Seq<u8>>>,
    target: TargetOs,
    permissions: Permissions<F, N>,
) -> bool where F: for <'a>From<&'a SandboxPolicy>, N: for <'a>From<&'a SandboxPolicy> {
    let policy = permissions.sandbox_policy.value;
    &&& permissions.approval_policy.value == AskForApproval::Never
    &&& policy@ == profile_policy(profile, read, write)
    &&& call_ensures(
        <F as From<&SandboxPolicy>>::from,
        (&policy,),
        permissions.file_system_sandbox_policy,
    )
    &&& call_ensures(
        <N as From<&SandboxPolicy>>::from,
        (&policy,),
        permissions.network_sandbox_policy,
    )
    &&& permissions.network is None
    &&& permissions.allow_login_shell
    &&& permissions.shell_environment_policy == (ShellEnvironmentPolicy {  })
    &&& permissions.windows_sandbox_mode is None
    &&& permissions.macos_seatbelt_profile_extensions == profile_extensions(profile, target)
}

/// The path that counts for a requested path, given what it resolves to; none where that is
/// not absolute.
pub fn normalize_permission_path(value: &AbsolutePathBuf, resolved: Option<PathBuf>) -> (path:
    Option<AbsolutePathBuf>)
    ensures
        match path {
            Some(p) => is_absolute_path(chosen_path(value@, opt_path(resolved))) && p@
                == chosen_path(value@, opt_path(resolved)),
            None => !is_absolute_path(chosen_path(value@, opt_path(resolved))),
        },
        resolved is None ==> path is Some,
{
    let chosen = match resolved {
        Some(path) => path,
        None => value.to_path_buf(),
    };
    match AbsolutePathBuf::from_absolute_path(chosen) {
        Ok(path) => Some(path),
        Err(_) => None,
    }
}

/// Whether a list of paths has a path that equals the given one.
fn contains_path(paths: &Vec<AbsolutePathBuf>, path: &AbsolutePathBuf) -> (result: bool)
    ensures
        result == has_path(path_list(paths@), path@),
{
    let mut i: usize = 0;
    while i < paths.len()
        invariant
            i <= paths@.len(),
            forall|j: int| 0 <= j < i ==> !same_path((#[trigger] paths@[j])@, path@),
        decreases paths@.len() - i,
    {
        if paths[i].same_as(path) {
            assert(same_path(path_list(paths@)[i as int], path@));
            return true;
        }
        i = i + 1;
    }
    assert forall|j: int| 0 <= j < paths@.len() implies !same_path(
        #[trigger] path_list(paths@)[j],
        path@,
    ) by {
        assert(!same_path(paths@[j]@, path@));
    }
    false
}

/// The requested paths as they count, in their order and without repetition, given what
/// each resolves to.
pub fn normalize_permission_paths(
    values: &Vec<AbsolutePathBuf>,
    resolved: Vec<Option<PathBuf>>,
) -> (paths: Vec<AbsolutePathBuf>)
    requires
        resolved@.len() == values@.len(),
    ensures
        path_list(paths@) == distinct_paths(
            chosen_paths(path_list(values@), resolutions(resolved@)),
        ),
{
    let ghost all = chosen_paths(path_list(values@), resolutions(resolved@));
    let mut paths: Vec<AbsolutePathBuf> = Vec::new();
    assert(path_list(paths@) =~= distinct_paths(all.take(0)));
    let len: usize = values.len();
    let mut i: usize = 0;
    for resolution in it: resolved
        invariant
            it.seq() == resolved@,
            i == it.index(),
            resolved@.len() == values@.len() == len,
            all == chosen_paths(path_list(values@), resolutions(resolved@)),
            path_list(paths@) == distinct_paths(all.take(i as int)),
    {
        let ghost now = all.take(i + 1);
        assert(now.drop_last() =~= all.take(i as int));
        assert(now.last() == chosen_path(values@[i as int]@, opt_path(resolution)));
        let ghost before = paths@;
        match normalize_permission_path(&values[i], resolution) {
            Some(path) => {
                if !contains_path(&paths, &path) {
                    paths.push(path);
                    assert(path_list(paths@) =~= path_list(before).push(path@));
                }
            },
            None => {},
        }
        i = i + 1;
    }
    assert(all.take(all.len() as int) =~= all);
    paths
}

/// The Seatbelt extensions: those of the profile on macOS, none elsewhere.
pub fn build_macos_seatbelt_profile_extensions(
    permissions: MacOsSeatbeltProfileExtensions,
    target: TargetOs,
) -> (extensions: Option<MacOsSeatbeltProfileExtensions>)
    ensures
        extensions == (match target {
            TargetOs::MacOs => Some(permissions),
            TargetOs::OtherUnix => None,
        }),
{
    match target {
        TargetOs::MacOs => Some(permissions),
        TargetOs::OtherUnix => None,
    }
}

/// What may be read, given the paths to read.
fn read_access(read: Vec<AbsolutePathBuf>) -> (access: ReadOnlyAccess)
    ensures
        access@ == access_to(path_list(read@)),
{
    if read.is_empty() {
        ReadOnlyAccess::FullAccess
    } else {
        ReadOnlyAccess::Restricted { include_platform_defaults: true, readable_roots: read }
    }
}

/// The paths to read and the paths to write that a profile lists.
fn requested_paths(file_system: Option<FileSystemPermissions>) -> (paths: (
    Vec<AbsolutePathBuf>,
    Vec<AbsolutePathBuf>,
))
    ensures
        forall|profile: PermissionProfile|
            profile.file_system == file_system ==> path_list(paths.0@) == #[trigger] requested_read(
                profile,
            ) && path_list(paths.1@) == requested_write(profile),
{
    let mut read: Vec<AbsolutePathBuf> = Vec::new();
    let mut write: Vec<AbsolutePathBuf> = Vec::new();
    assert(path_list(read@) =~= Seq::empty());
    if let Some(FileSystemPermissions { read: listed_read, write: listed_write }) = file_system {
        if let Some(paths) = listed_read {
            read = paths;
        }
        if let Some(paths) = listed_write {
            write = paths;
        }
    }
    (read, write)
}

/// Compiles a profile, given what each of its paths resolves to.
pub fn compile_resolved_profile<F, N>(
    profile: PermissionProfile,
    resolved_read: Vec<Option<PathBuf>>,
    resolved_write: Vec<Option<PathBuf>>,
    target: TargetOs,
) -> (permissions: Permissions<F, N>) where
    F: for <'a>From<&'a SandboxPolicy>,
    N: for <'a>From<&'a SandboxPolicy>,

    requires
        resolved_read@.len() == requested_read(profile).len(),
        resolved_write@.len() == requested_write(profile).len(),
    ensures
        compiles_to(
            profile,
            resolutions(resolved_read@),
            resolutions(resolved_write@),
            target,
            permissions,
        ),
{
    let PermissionProfile { network, file_system, macos } = profile;
    let (read, write) = requested_paths(file_system);
    assert(path_list(read@) == requested_read(profile));
    let network_access = match network {
        Some(NetworkPermissions { enabled: Some(enabled) }) => enabled,
        _ => false,
    };
    let fs_read = normalize_permission_paths(&read, resolved_read);
    let fs_write = normalize_permission_paths(&write, resolved_write);
    let sandbox_policy = if !fs_write.is_empty() {
        SandboxPolicy::WorkspaceWrite {
            writable_roots: fs_write,
            read_only_access: read_access(fs_read),
            network_access,
            exclude_tmpdir_env_var: false,
            exclude_slash_tmp: false,
        }
    } else {
        SandboxPolicy::ReadOnly { access: read_access(fs_read), network_access }
    };
    let macos_permissions = match macos {
        Some(extensions) => extensions,
        None => MacOsSeatbeltProfileExtensions::default(),
    };
    let file_system_sandbox_policy = F::from(&sandbox_policy);
    let network_sandbox_policy = N::from(&sandbox_policy);
    Permissions {
        approval_policy: Constrained::allow_any(AskForApproval::Never),
        sandbox_policy: Constrained::allow_any(sandbox_policy),
        file_system_sandbox_policy,
        network_sandbox_policy,
        network: None,
        allow_login_shell: true,
        shell_environment_policy: ShellEnvironmentPolicy {  },
        windows_sandbox_mode: None,
        macos_seatbelt_profile_extensions: build_macos_seatbelt_profile_extensions(
            macos_permissions,
            target,
        ),
    }
}

/// Whether `resolved` is what the file system may answer about `values`: for each path, in
/// order, an answer about that path.
pub open spec fn may_resolve_to(
    values: Seq<Seq<u8>>,
    resolved: Seq<Option<Seq<u8>>>,
) -> bool {
    &&& resolved.len() == values.len()
    &&& forall|i: int| 0 <= i < resolved.len() ==> may_answer(values[i], #[trigger] resolved[i])
}

/// Asks the file system what each path resolves to.
pub fn resolve_paths(values: &Vec<AbsolutePathBuf>) -> (resolved: Vec<Option<PathBuf>>)
    ensures
        may_resolve_to(path_list(values@), resolutions(resolved@)),
{
    let mut resolved: Vec<Option<PathBuf>> = Vec::new();
    let mut i: usize = 0;
    while i < values.len()
        invariant
            i <= values@.len(),
            may_resolve_to(path_list(values@).take(i as int), resolutions(resolved@)),
        decreases values@.len() - i,
    {
        let answer = resolve_path(values[i].as_path());
        let ghost before = resolutions(resolved@);
        resolved.push(answer);
        assert(resolutions(resolved@) =~= before.push(opt_path(answer)));
        proof {
            let asked = path_list(values@).take(i + 1);
            assert(asked.drop_last() =~= path_list(values@).take(i as int));
            let now = resolutions(resolved@);
            assert forall|j: int| 0 <= j < now.len() implies may_answer(
                asked[j],
                #[trigger] now[j],
            ) by {
                if j < i {
                    assert(now[j] == before[j]);
                    assert(asked[j] == path_list(values@).take(i as int)[j]);
                }
            }
        }
        i = i + 1;
    }
    assert(path_list(values@).take(i as int) =~= path_list(values@));
    resolved
}

/// Asks the file system what each path of an optional list resolves to.
fn resolve_listed(paths: &Option<Vec<AbsolutePathBuf>>) -> (resolved: Vec<Option<PathBuf>>)
    ensures
        may_resolve_to(
            match *paths {
                Some(p) => path_list(p@),
                None => Seq::empty(),
            },
            resolutions(resolved@),
        ),
{
    match paths {
        Some(p) => resolve_paths(p),
        None => Vec::new(),
    }
}

/// Compiles the permission profile of a skill, as the file system now resolves its paths.
/// Without a profile there are no permissions to compile.
pub fn compile_permission_profile<F, N>(
    permissions: Option<PermissionProfile>,
    target: TargetOs,
) -> (compiled: Option<Permissions<F, N>>) where
    F: for <'a>From<&'a SandboxPolicy>,
    N: for <'a>From<&'a SandboxPolicy>,

    ensures
        compiled is Some <==> permissions is Some,
        compiled matches Some(c) ==> exists|
            read: Seq<Option<Seq<u8>>>,
            write: Seq<Option<Seq<u8>>>,
        |
            may_resolve_to(requested_read(permissions->0), read) && may_resolve_to(
                requested_write(permissions->0),
                write,
            ) && #[trigger] compiles_to(permissions->0, read, write, target, c),
{
    match permissions {
        Some(profile) => {
            let (read, write) = match &profile.file_system {
                Some(file_system) => (
                    resolve_listed(&file_system.read),
                    resolve_listed(&file_system.write),
                ),
                None => (Vec::new(), Vec::new()),
            };
            assert(may_resolve_to(requested_read(profile), resolutions(read@)));
            assert(may_resolve_to(requested_write(profile), resolutions(write@)));
            Some(compile_resolved_profile(profile, read, write, target))
        },
        None => None,
    }
}

/// The paths that a policy names are absolute, and no two of them are equal.
pub proof fn law_paths_are_distinct(paths: Seq<Seq<u8>>)
    ensures
        forall|i: int|
            0 <= i < distinct_paths(paths).len() ==> is_absolute_path(
                #[trigger] distinct_paths(paths)[i],
            ),
        forall|i: int, j: int|
            0 <= i < j < distinct_paths(paths).len() ==> !same_path(
                #[trigger] distinct_paths(paths)[i],
                #[trigger] distinct_paths(paths)[j],
            ),
    decreases paths.len(),
{
    if paths.len() > 0 {
        law_paths_are_distinct(paths.drop_last());
        let before = distinct_paths(paths.drop_last());
        let now = distinct_paths(paths);
        assert(forall|i: int| 0 <= i < before.len() ==> now[i] == #[trigger] before[i]);
        assert forall|i: int| 0 <= i < now.len() implies is_absolute_path(#[trigger] now[i]) by {
            if i < before.len() {
                assert(is_absolute_path(before[i]));
            }
        }
        assert forall|i: int, j: int| 0 <= i < j < now.len() implies !same_path(
            #[trigger] now[i],
            #[trigger] now[j],
        ) by {
            if j < before.len() {
                assert(!same_path(before[i], before[j]));
            } else {
                assert(!same_path(before[i], paths.last()));
            }
        }
    }
}

/// No absolute path is lost: each equals one that is kept.
pub proof fn law_paths_are_covered(paths: Seq<Seq<u8>>, k: int)
    requires
        0 <= k < paths.len(),
        is_absolute_path(paths[k]),
    ensures
        has_path(distinct_paths(paths), paths[k]),
    decreases paths.len(),
{
    let before = distinct_paths(paths.drop_last());
    let now = distinct_paths(paths);
    if k < paths.len() - 1 {
        law_paths_are_covered(paths.drop_last(), k);
        let i = choose|i: int| 0 <= i < before.len() && same_path(#[trigger] before[i], paths[k]);
        assert(now[i] == before[i]);
    } else if has_path(before, paths[k]) {
        assert(now == before);
    } else {
        assert(same_path(now[now.len() - 1], paths[k]));
    }
}

/// No path is made up: each one that is kept was given.
pub proof fn law_paths_were_given(paths: Seq<Seq<u8>>, i: int)
    requires
        0 <= i < distinct_paths(paths).len(),
    ensures
        paths.contains(distinct_paths(paths)[i]),
    decreases paths.len(),
{
    let before = distinct_paths(paths.drop_last());
    if i < before.len() {
        law_paths_were_given(paths.drop_last(), i);
        let k = choose|k: int| 0 <= k < paths.drop_last().len() && paths.drop_last()[k] == before[i];
        assert(paths[k] == before[i]);
    } else {
        assert(paths[paths.len() - 1] == distinct_paths(paths)[i]);
    }
}

/// Normalizing paths that are normalized changes nothing.
pub proof fn law_normalizing_twice(paths: Seq<Seq<u8>>)
    ensures
        distinct_paths(distinct_paths(paths)) == distinct_paths(paths),
    decreases paths.len(),
{
    if paths.len() > 0 {
        let before = distinct_paths(paths.drop_last());
        law_normalizing_twice(paths.drop_last());
        assert(before.push(paths.last()).drop_last() =~= before);
    }
}

/// Compiled permissions never grant full access to the system: the network is open only
/// where the profile asks for it, writing is possible only where the profile names paths
/// to write, and nobody is asked for approval.
pub proof fn law_compiled_permissions_are_confined<F, N>(
    profile: PermissionProfile,
    read: Seq<Option<Seq<u8>>>,
    write: Seq<Option<Seq<u8>>>,
    target: TargetOs,
    permissions: Permissions<F, N>,
) where F: for <'a>From<&'a SandboxPolicy>, N: for <'a>From<&'a SandboxPolicy>
    requires
        may_resolve_to(requested_read(profile), read),
        may_resolve_to(requested_write(profile), write),
        compiles_to(profile, read, write, target, permissions),
    ensures
        permissions.approval_policy.value == AskForApproval::Never,
        match permissions.sandbox_policy.value@ {
            PolicyModel::ReadOnly { network_access, .. } => network_access == requested_network(
                profile,
            ) && distinct_paths(chosen_paths(requested_write(profile), write)).len() == 0,
            PolicyModel::WorkspaceWrite { writable_roots, network_access, .. } => network_access
                == requested_network(profile) && requested_write(profile).len() > 0
                && forall|i: int|
                0 <= i < writable_roots.len() ==> chosen_paths(
                    requested_write(profile),
                    write,
                ).contains(#[trigger] writable_roots[i]),
            _ => false,
        },
{
    let chosen = chosen_paths(requested_write(profile), write);
    assert forall|i: int| 0 <= i < distinct_paths(chosen).len() implies chosen.contains(
        #[trigger] distinct_paths(chosen)[i],
    ) by {
        law_paths_were_given(chosen, i);
    }
}

/// Whatever a profile asks for, nobody is asked for approval, no proxy is set up, a login shell
/// is allowed, commands inherit the default environment, and the file system policy and the
/// network policy are those that the sandbox policy stands for.
pub proof fn law_compiled_permissions_have_a_fixed_part<F, N>(
    profile: PermissionProfile,
    read: Seq<Option<Seq<u8>>>,
    write: Seq<Option<Seq<u8>>>,
    target: TargetOs,
    permissions: Permissions<F, N>,
) where F: for <'a>From<&'a SandboxPolicy>, N: for <'a>From<&'a SandboxPolicy>
    requires
        compiles_to(profile, read, write, target, permissions),
    ensures
        permissions.approval_policy == (Constrained { value: AskForApproval::Never }),
        permissions.network is None,
        permissions.allow_login_shell,
        permissions.shell_environment_policy == (ShellEnvironmentPolicy {  }),
        permissions.windows_sandbox_mode is None,
        call_ensures(
            <F as From<&SandboxPolicy>>::from,
            (&permissions.sandbox_policy.value,),
            permissions.file_system_sandbox_policy,
        ),
        call_ensures(
            <N as From<&SandboxPolicy>>::from,
            (&permissions.sandbox_policy.value,),
            permissions.network_sandbox_policy,
        ),
{
}

/// What a profile asks for is what it lists: the paths to read, the paths to write, and the
/// network only where it is switched on.
pub proof fn law_a_profile_asks_for_what_it_lists(profile: PermissionProfile)
    ensures
        profile.file_system is None ==> requested_read(profile).len() == 0 && requested_write(
            profile,
        ).len() == 0,
        profile.file_system matches Some(file_system) ==> {
            &&& file_system.read is None ==> requested_read(profile).len() == 0
            &&& file_system.read matches Some(paths) ==> requested_read(profile) == path_list(
                paths@,
            )
        },
        profile.file_system matches Some(file_system) ==> {
            &&& file_system.write is None ==> requested_write(profile).len() == 0
            &&& file_system.write matches Some(paths) ==> requested_write(profile) == path_list(
                paths@,
            )
        },
        requested_network(profile) <==> profile.network == Some(
            NetworkPermissions { enabled: Some(true) },
        ),
{
}

/// The path that counts is the one that the file system gave, and the one that was asked about
/// where it gave none.
pub proof fn law_the_path_that_counts(
    values: Seq<Seq<u8>>,
    resolved: Seq<Option<Seq<u8>>>,
    i: int,
)
    requires
        0 <= i < values.len(),
        resolved.len() == values.len(),
    ensures
        chosen_paths(values, resolved).len() == values.len(),
        resolved[i] matches Some(path) ==> chosen_paths(values, resolved)[i] == path,
        resolved[i] is None ==> chosen_paths(values, resolved)[i] == values[i],
{
}

/// Paths that come later change nothing about those that are kept of the earlier ones: they
/// are kept in their order, and of equal paths the first.
pub proof fn law_earlier_paths_come_first(paths: Seq<Seq<u8>>, n: int)
    requires
        0 <= n <= paths.len(),
    ensures
        distinct_paths(paths.take(n)).len() <= distinct_paths(paths).len(),
        distinct_paths(paths.take(n)) == distinct_paths(paths).take(
            distinct_paths(paths.take(n)).len() as int,
        ),
    decreases paths.len(),
{
    if n == paths.len() {
        assert(paths.take(n) =~= paths);
        assert(distinct_paths(paths).take(distinct_paths(paths).len() as int) =~= distinct_paths(
            paths,
        ));
    } else {
        assert(paths.drop_last().take(n) =~= paths.take(n));
        law_earlier_paths_come_first(paths.drop_last(), n);
        let before = distinct_paths(paths.drop_last());
        let kept = distinct_paths(paths.take(n)).len() as int;
        assert(distinct_paths(paths).take(kept) =~= before.take(kept));
    }
}

/// Whether a list of roots is made of the given paths: no two roots are equal, each root is
/// absolute and was given, and each absolute path that was given equals a root.
pub open spec fn roots_of(
    roots: Seq<Seq<u8>>,
    asked: Seq<Seq<u8>>,
    resolved: Seq<Option<Seq<u8>>>,
) -> bool {
    &&& forall|i: int, j: int|
        0 <= i < j < roots.len() ==> path_names(#[trigger] roots[i]) != path_names(
            #[trigger] roots[j],
        )
    &&& forall|i: int| 0 <= i < roots.len() ==> is_absolute_path(#[trigger] roots[i])
    &&& forall|i: int|
        0 <= i < roots.len() ==> exists|k: int|
            0 <= k < asked.len() && #[trigger] roots[i] == (match #[trigger] resolved[k] {
                Some(path) => path,
                None => asked[k],
            })
    &&& forall|k: int|
        0 <= k < asked.len() ==> {
            let path = match #[trigger] resolved[k] {
                Some(path) => path,
                None => asked[k],
            };
            is_absolute_path(path) ==> exists|i: int|
                0 <= i < roots.len() && path_names(#[trigger] roots[i]) == path_names(path)
        }
}

proof fn lemma_roots(asked: Seq<Seq<u8>>, resolved: Seq<Option<Seq<u8>>>)
    requires
        resolved.len() == asked.len(),
    ensures
        roots_of(distinct_paths(chosen_paths(asked, resolved)), asked, resolved),
{
    let chosen = chosen_paths(asked, resolved);
    let roots = distinct_paths(chosen);
    law_paths_are_distinct(chosen);
    assert forall|i: int, j: int| 0 <= i < j < roots.len() implies path_names(#[trigger] roots[i])
        != path_names(#[trigger] roots[j]) by {
        assert(!same_path(roots[i], roots[j]));
    }
    assert forall|i: int| 0 <= i < roots.len() implies exists|k: int|
        0 <= k < asked.len() && #[trigger] roots[i] == (match #[trigger] resolved[k] {
            Some(path) => path,
            None => asked[k],
        }) by {
        law_paths_were_given(chosen, i);
        let k = choose|k: int| 0 <= k < chosen.len() && chosen[k] == roots[i];
        assert(roots[i] == (match resolved[k] {
            Some(path) => path,
            None => asked[k],
        }));
    }
    assert forall|k: int| 0 <= k < asked.len() implies {
        let path = match #[trigger] resolved[k] {
            Some(path) => path,
            None => asked[k],
        };
        is_absolute_path(path) ==> exists|i: int|
            0 <= i < roots.len() && path_names(#[trigger] roots[i]) == path_names(path)
    } by {
        if is_absolute_path(chosen[k]) {
            law_paths_are_covered(chosen, k);
            let i = choose|i: int| 0 <= i < roots.len() && same_path(#[trigger] roots[i], chosen[k]);
            assert(path_names(roots[i]) == path_names(chosen[k]));
        }
    }
}

/// Whether no path is left of a list: none of them, as it counts, is absolute.
pub open spec fn nothing_left(
    asked: Seq<Seq<u8>>,
    resolved: Seq<Option<Seq<u8>>>,
) -> bool {
    forall|k: int|
        0 <= k < asked.len() ==> !is_absolute_path(
            match #[trigger] resolved[k] {
                Some(path) => path,
                None => asked[k],
            },
        )
}

proof fn lemma_nothing_left(asked: Seq<Seq<u8>>, resolved: Seq<Option<Seq<u8>>>)
    requires
        resolved.len() == asked.len(),
    ensures
        distinct_paths(chosen_paths(asked, resolved)).len() == 0 <==> nothing_left(asked, resolved),
{
    let chosen = chosen_paths(asked, resolved);
    let roots = distinct_paths(chosen);
    lemma_roots(asked, resolved);
    if roots.len() == 0 {
        assert forall|k: int| 0 <= k < asked.len() implies !is_absolute_path(
            match #[trigger] resolved[k] {
                Some(path) => path,
                None => asked[k],
            },
        ) by {
            if is_absolute_path(chosen[k]) {
                law_paths_are_covered(chosen, k);
            }
        }
    } else {
        law_paths_were_given(chosen, 0);
        let k = choose|k: int| 0 <= k < chosen.len() && chosen[k] == roots[0];
        assert(is_absolute_path(roots[0]));
        assert(resolved[k] == resolved[k]);
    }
}

/// What compiled permissions may read is decided by the paths to read alone, whatever the
/// network and the paths to write: everything where no path to read is left, and else the
/// platform's defaults and the paths to read, none lost and none made up.
pub proof fn law_reading_is_decided_by_the_paths_to_read<F, N>(
    profile: PermissionProfile,
    read: Seq<Option<Seq<u8>>>,
    write: Seq<Option<Seq<u8>>>,
    target: TargetOs,
    permissions: Permissions<F, N>,
) where F: for <'a>From<&'a SandboxPolicy>, N: for <'a>From<&'a SandboxPolicy>
    requires
        compiles_to(profile, read, write, target, permissions),
        read.len() == requested_read(profile).len(),
    ensures
        ({
            let access = match permissions.sandbox_policy.value@ {
                PolicyModel::ReadOnly { access, .. } => Some(access),
                PolicyModel::WorkspaceWrite { read_only_access, .. } => Some(read_only_access),
                _ => None,
            };
            &&& nothing_left(requested_read(profile), read) ==> access == Some(
                AccessModel::FullAccess,
            )
            &&& !nothing_left(requested_read(profile), read) ==> {
                &&& access matches Some(AccessModel::Restricted {
                    include_platform_defaults,
                    readable_roots,
                })
                &&& include_platform_defaults
                &&& readable_roots.len() > 0
                &&& roots_of(readable_roots, requested_read(profile), read)
                &&& readable_roots == distinct_paths(chosen_paths(requested_read(profile), read))
            }
        }),
{
    lemma_roots(requested_read(profile), read);
    lemma_nothing_left(requested_read(profile), read);
}

/// What compiled permissions may write is decided by the paths to write alone: nothing where
/// no path to write is left, and else those paths, none lost and none made up, with the
/// directories for temporary files as the system has them.
pub proof fn law_writing_is_decided_by_the_paths_to_write<F, N>(
    profile: PermissionProfile,
    read: Seq<Option<Seq<u8>>>,
    write: Seq<Option<Seq<u8>>>,
    target: TargetOs,
    permissions: Permissions<F, N>,
) where F: for <'a>From<&'a SandboxPolicy>, N: for <'a>From<&'a SandboxPolicy>
    requires
        compiles_to(profile, read, write, target, permissions),
        write.len() == requested_write(profile).len(),
    ensures
        nothing_left(requested_write(profile), write)
            ==> permissions.sandbox_policy.value@ is ReadOnly,
        !nothing_left(requested_write(profile), write) ==> {
            &&& permissions.sandbox_policy.value@ matches PolicyModel::WorkspaceWrite {
                writable_roots,
                exclude_tmpdir_env_var,
                exclude_slash_tmp,
                ..
            }
            &&& writable_roots.len() > 0
            &&& roots_of(writable_roots, requested_write(profile), write)
            &&& writable_roots == distinct_paths(chosen_paths(requested_write(profile), write))
            &&& !exclude_tmpdir_env_var
            &&& !exclude_slash_tmp
        },
{
    lemma_roots(requested_write(profile), write);
    lemma_nothing_left(requested_write(profile), write);
}

/// The network is open exactly where the profile switches it on, whatever it asks to read and
/// to write.
pub proof fn law_the_network_is_decided_by_the_profile<F, N>(
    profile: PermissionProfile,
    read: Seq<Option<Seq<u8>>>,
    write: Seq<Option<Seq<u8>>>,
    target: TargetOs,
    permissions: Permissions<F, N>,
) where F: for <'a>From<&'a SandboxPolicy>, N: for <'a>From<&'a SandboxPolicy>
    requires
        compiles_to(profile, read, write, target, permissions),
    ensures
        ({
            let open = match permissions.sandbox_policy.value@ {
                PolicyModel::ReadOnly { network_access, .. } => network_access,
                PolicyModel::WorkspaceWrite { network_access, .. } => network_access,
                _ => true,
            };
            open <==> profile.network == Some(NetworkPermissions { enabled: Some(true) })
        }),
{
}

/// The Seatbelt extensions are those of the profile on macOS, as it gives them; a profile that
/// gives none may read preferences and nothing else. Elsewhere there are none.
pub proof fn law_extensions_are_those_of_the_profile<F, N>(
    profile: PermissionProfile,
    read: Seq<Option<Seq<u8>>>,
    write: Seq<Option<Seq<u8>>>,
    target: TargetOs,
    permissions: Permissions<F, N>,
) where F: for <'a>From<&'a SandboxPolicy>, N: for <'a>From<&'a SandboxPolicy>
    requires
        compiles_to(profile, read, write, target, permissions),
    ensures
        target is OtherUnix ==> permissions.macos_seatbelt_profile_extensions is None,
        target is MacOs && profile.macos is Some ==> permissions.macos_seatbelt_profile_extensions
            == profile.macos,
        target is MacOs && profile.macos is None ==> permissions.macos_seatbelt_profile_extensions
            == Some(
            MacOsSeatbeltProfileExtensions {
                macos_preferences: MacOsPreferencesPermission::ReadOnly,
                macos_automation: MacOsAutomationPermission::NoAccess,
                macos_accessibility: false,
                macos_calendar: false,
            },
        ),
{
}

/// Each path gets an answer of its own: what the file system says about a list of paths is, for
/// each of them, what it may say about that path, and what it says about two lists is what it
/// says about one and then about the other.
pub proof fn law_each_path_gets_its_own_answer(
    values: Seq<Seq<u8>>,
    resolved: Seq<Option<Seq<u8>>>,
    more_values: Seq<Seq<u8>>,
    more_resolved: Seq<Option<Seq<u8>>>,
    i: int,
)
    requires
        values.len() == resolved.len(),
        more_values.len() == more_resolved.len(),
    ensures
        may_resolve_to(values, resolved) && 0 <= i < values.len() ==> may_answer(
            values[i],
            resolved[i],
        ),
        may_resolve_to(values + more_values, resolved + more_resolved) <==> may_resolve_to(
            values,
            resolved,
        ) && may_resolve_to(more_values, more_resolved),
{
    let all_values = values + more_values;
    let all_resolved = resolved + more_resolved;
    if may_resolve_to(all_values, all_resolved) {
        assert forall|j: int| 0 <= j < resolved.len() implies may_answer(
            values[j],
            #[trigger] resolved[j],
        ) by {
            assert(all_resolved[j] == resolved[j]);
        }
        assert forall|j: int| 0 <= j < more_resolved.len() implies may_answer(
            more_values[j],
            #[trigger] more_resolved[j],
        ) by {
            assert(all_resolved[resolved.len() + j] == more_resolved[j]);
        }
    }
}

/// The answers about a list of paths are kept in their order, and a path that does not resolve
/// keeps its place.
pub proof fn law_answers_keep_their_places(resolved: Seq<Option<PathBuf>>, i: int)
    requires
        0 <= i < resolved.len(),
    ensures
        resolutions(resolved).len() == resolved.len(),
        resolved[i] is Some <==> resolutions(resolved)[i] is Some,
        resolved[i] is Some ==> resolutions(resolved)[i]->0 == path_bytes(resolved[i]->0),
{
}

} // verus!
