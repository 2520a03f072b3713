//! What a turn may do: its approval policy and its sandbox policy.

use vstd::prelude::*;

use crate::path::path_list;
use crate::path::AbsolutePathBuf;

verus! {

/// Which kinds of approval request are refused without asking.
#[derive(Clone, Copy, Debug, PartialEq, Eq, Structural)]
pub struct RejectConfig {
    pub sandbox_approval: bool,
    pub rules: bool,
    pub mcp_elicitations: bool,
}

/// When a person is asked before a command runs.
#[derive(Clone, Copy, Debug, PartialEq, Eq, Structural)]
pub enum AskForApproval {
    UnlessTrusted,
    OnFailure,
    OnRequest,
    Reject(RejectConfig),
    Never,
}

/// What may be read.
#[derive(Debug, PartialEq)]
pub enum ReadOnlyAccess {
    FullAccess,
    Restricted { include_platform_defaults: bool, readable_roots: Vec<AbsolutePathBuf> },
}

/// What a command may read, write and reach.
#[derive(Debug, PartialEq)]
pub enum SandboxPolicy {
    ReadOnly { access: ReadOnlyAccess, network_access: bool },
    WorkspaceWrite {
        writable_roots: Vec<AbsolutePathBuf>,
        read_only_access: ReadOnlyAccess,
        network_access: bool,
        exclude_tmpdir_env_var: bool,
        exclude_slash_tmp: bool,
    },
    DangerFullAccess,
    ExternalSandbox { network_access: bool },
}

/// The model of `ReadOnlyAccess`.
pub ghost enum AccessModel {
    FullAccess,
    Restricted { include_platform_defaults: bool, readable_roots: Seq<Seq<u8>> },
}

/// The model of `SandboxPolicy`.
pub ghost enum PolicyModel {
    ReadOnly { access: AccessModel, network_access: bool },
    WorkspaceWrite {
        writable_roots: Seq<Seq<u8>>,
        read_only_access: AccessModel,
        network_access: bool,
        exclude_tmpdir_env_var: bool,
        exclude_slash_tmp: bool,
    },
    DangerFullAccess,
    ExternalSandbox { network_access: bool },
}

impl View for ReadOnlyAccess {
    type V = AccessModel;

    open spec fn view(&self) -> AccessModel {
        match self {
            ReadOnlyAccess::FullAccess => AccessModel::FullAccess,
            ReadOnlyAccess::Restricted { include_platform_defaults, readable_roots } =>
                AccessModel::Restricted {
                include_platform_defaults: *include_platform_defaults,
                readable_roots: path_list(readable_roots@),
            },
        }
    }
}

impl View for SandboxPolicy {
    type V = PolicyModel;

    open spec fn view(&self) -> PolicyModel {
        match self {
            SandboxPolicy::ReadOnly { access, network_access } => PolicyModel::ReadOnly {
                access: access@,
                network_access: *network_access,
            },
            SandboxPolicy::WorkspaceWrite {
                writable_roots,
                read_only_access,
                network_access,
                exclude_tmpdir_env_var,
                exclude_slash_tmp,
            } => PolicyModel::WorkspaceWrite {
                writable_roots: path_list(writable_roots@),
                read_only_access: read_only_access@,
                network_access: *network_access,
                exclude_tmpdir_env_var: *exclude_tmpdir_env_var,
                exclude_slash_tmp: *exclude_slash_tmp,
            },
            SandboxPolicy::DangerFullAccess => PolicyModel::DangerFullAccess,
            SandboxPolicy::ExternalSandbox { network_access } => PolicyModel::ExternalSandbox {
                network_access: *network_access,
            },
        }
    }
}

/// The name of a sandbox policy in metrics.
pub open spec fn policy_tag(policy: PolicyModel) -> Seq<char> {
    match policy {
        PolicyModel::ReadOnly { .. } => "read-only"@,
        PolicyModel::WorkspaceWrite { .. } => "workspace-write"@,
        PolicyModel::DangerFullAccess => "danger-full-access"@,
        PolicyModel::ExternalSandbox { .. } => "external-sandbox"@,
    }
}

/// The name of an approval policy in hook payloads.
pub open spec fn approval_tag(policy: AskForApproval) -> Seq<char> {
    match policy {
        AskForApproval::UnlessTrusted => "untrusted"@,
        AskForApproval::OnFailure => "on-failure"@,
        AskForApproval::OnRequest => "on-request"@,
        AskForApproval::Reject(_) => "reject"@,
        AskForApproval::Never => "never"@,
    }
}

/// The name under which metrics report a sandbox policy.
pub fn sandbox_policy_tag(policy: &SandboxPolicy) -> (tag: &'static str)
    ensures
        tag@ == policy_tag(policy@),
{
    match policy {
        SandboxPolicy::ReadOnly { .. } => "read-only",
        SandboxPolicy::WorkspaceWrite { .. } => "workspace-write",
        SandboxPolicy::DangerFullAccess => "danger-full-access",
        SandboxPolicy::ExternalSandbox { .. } => "external-sandbox",
    }
}

/// The `permission_mode` that hooks are told.
pub fn approval_policy_for_hooks(policy: AskForApproval) -> (tag: &'static str)
    ensures
        tag@ == approval_tag(policy),
{
    match policy {
        AskForApproval::UnlessTrusted => "untrusted",
        AskForApproval::OnFailure => "on-failure",
        AskForApproval::OnRequest => "on-request",
        AskForApproval::Reject(_) => "reject",
        AskForApproval::Never => "never",
    }
}

/// The names of the approval policies, whatever else they hold.
pub proof fn law_names_of_approval_policies(policy: AskForApproval)
    ensures
        policy is UnlessTrusted ==> approval_tag(policy) == "untrusted"@,
        policy is OnFailure ==> approval_tag(policy) == "on-failure"@,
        policy is OnRequest ==> approval_tag(policy) == "on-request"@,
        policy is Reject ==> approval_tag(policy) == "reject"@,
        policy is Never ==> approval_tag(policy) == "never"@,
{
}

/// The names of the sandbox policies, whatever they grant.
pub proof fn law_names_of_sandbox_policies(policy: PolicyModel)
    ensures
        policy is ReadOnly ==> policy_tag(policy) == "read-only"@,
        policy is WorkspaceWrite ==> policy_tag(policy) == "workspace-write"@,
        policy is DangerFullAccess ==> policy_tag(policy) == "danger-full-access"@,
        policy is ExternalSandbox ==> policy_tag(policy) == "external-sandbox"@,
{
}

/// A policy is of the kind that its model is of, and grants what its model grants.
pub proof fn law_what_a_policy_grants(policy: SandboxPolicy)
    ensures
        policy@ matches PolicyModel::ReadOnly { access, network_access } ==> (policy
            matches SandboxPolicy::ReadOnly { access: granted, network_access: network }
            && granted@ == access && network == network_access),
        policy@ matches PolicyModel::WorkspaceWrite {
            writable_roots,
            read_only_access,
            network_access,
            exclude_tmpdir_env_var,
            exclude_slash_tmp,
        } ==> (policy matches SandboxPolicy::WorkspaceWrite {
            writable_roots: roots,
            read_only_access: granted,
            network_access: network,
            exclude_tmpdir_env_var: without_tmpdir,
            exclude_slash_tmp: without_tmp,
        } && path_list(roots@) == writable_roots && granted@ == read_only_access && network
            == network_access && without_tmpdir == exclude_tmpdir_env_var && without_tmp
            == exclude_slash_tmp),
        policy@ is DangerFullAccess ==> policy is DangerFullAccess,
        policy@ matches PolicyModel::ExternalSandbox { network_access } ==> (policy
            matches SandboxPolicy::ExternalSandbox { network_access: network } && network
            == network_access),
{
}

/// Access to read is full exactly where its model says so, and is else for the paths that its
/// model lists.
pub proof fn law_what_may_be_read(access: ReadOnlyAccess)
    ensures
        access@ is FullAccess <==> access is FullAccess,
        access@ matches AccessModel::Restricted { include_platform_defaults, readable_roots } ==> (
        access matches ReadOnlyAccess::Restricted {
            include_platform_defaults: defaults,
            readable_roots: roots,
        } && defaults == include_platform_defaults && path_list(roots@) == readable_roots),
{
}

} // verus!
