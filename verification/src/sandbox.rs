//! Sandbox policies for the commands that the agent runs.
use vstd::prelude::*;
use vstd::string::*;
use crate::text::str_eq;

verus! {

/// How far a spawned command may reach into the file system.
#[derive(Debug, Clone, PartialEq, Eq)]
pub enum SandboxPolicy {
    /// Reads everywhere, writes nowhere.
    ReadOnly,
    /// Reads everywhere, writes only beneath `root`.
    WorkspaceWrite { root: String },
    /// No restriction at all.
    DangerFullAccess,
}

/// Applies sandbox policies to the current process.
pub struct Sandbox;

/// The file-system access that a sandbox rule grants beneath a path.
#[derive(Debug, Clone, Copy, PartialEq, Eq)]
pub enum FsAccess {
    Read,
    Write,
}

/// One rule of a sandbox: `access` beneath `path`.
#[derive(Debug, Clone)]
pub struct SandboxRule {
    pub path: String,
    pub access: FsAccess,
}

/// The rules that enforce a policy, in the order they are added; `None` for
/// a policy that imposes no sandbox. Every other access is denied.
pub open spec fn policy_rules(p: SandboxPolicy) -> Option<Seq<(Seq<char>, FsAccess)>> {
    match p {
        SandboxPolicy::DangerFullAccess => None,
        SandboxPolicy::ReadOnly => Some(seq![("/"@, FsAccess::Read)]),
        SandboxPolicy::WorkspaceWrite { root } => Some(
            seq![("/"@, FsAccess::Read), (root@, FsAccess::Write)],
        ),
    }
}

/// The path and access of each rule.
pub open spec fn rules_view(rs: Seq<SandboxRule>) -> Seq<(Seq<char>, FsAccess)> {
    rs.map_values(|r: SandboxRule| (r.path@, r.access))
}

impl SandboxPolicy {
    /// A copy of the policy.
    pub fn duplicate(&self) -> (p: SandboxPolicy)
        ensures
            p == *self,
    {
        match self {
            SandboxPolicy::ReadOnly => SandboxPolicy::ReadOnly,
            SandboxPolicy::WorkspaceWrite { root } => SandboxPolicy::WorkspaceWrite { root: root.clone() },
            SandboxPolicy::DangerFullAccess => SandboxPolicy::DangerFullAccess,
        }
    }
}

impl Sandbox {
    /// The rules that enforce `policy`: reading everywhere, and for a
    /// workspace-write policy writing beneath its root; nothing for a policy
    /// without restriction.
    pub fn rules(policy: &SandboxPolicy) -> (r: Option<Vec<SandboxRule>>)
        ensures
            match (r, policy_rules(*policy)) {
                (Some(v), Some(w)) => rules_view(v@) == w,
                (None, None) => true,
                _ => false,
            },
    {
        match policy {
            SandboxPolicy::DangerFullAccess => None,
            SandboxPolicy::ReadOnly => {
                let mut v: Vec<SandboxRule> = Vec::new();
                v.push(SandboxRule { path: String::from_str("/"), access: FsAccess::Read });
                assert(rules_view(v@) =~= seq![("/"@, FsAccess::Read)]);
                Some(v)
            },
            SandboxPolicy::WorkspaceWrite { root } => {
                let mut v: Vec<SandboxRule> = Vec::new();
                v.push(SandboxRule { path: String::from_str("/"), access: FsAccess::Read });
                v.push(SandboxRule { path: root.clone(), access: FsAccess::Write });
                assert(rules_view(v@) =~= seq![("/"@, FsAccess::Read), (root@, FsAccess::Write)]);
                Some(v)
            },
        }
    }
}

/// The policy that a configuration names: `ReadOnly`, `DangerFullAccess`, or
/// for any other name a workspace-write policy rooted at `cwd`.
pub open spec fn policy_named(name: Seq<char>, cwd: String) -> SandboxPolicy {
    if name == "ReadOnly"@ {
        SandboxPolicy::ReadOnly
    } else if name == "DangerFullAccess"@ {
        SandboxPolicy::DangerFullAccess
    } else {
        SandboxPolicy::WorkspaceWrite { root: cwd }
    }
}

/// A sandbox lets commands read everywhere and write only beneath the
/// workspace root: every rule that grants writing belongs to a
/// workspace-write policy and names its root, every restricting policy
/// starts by granting reading beneath `/`, and only the unrestricted policy
/// imposes no rules.
pub proof fn law_writes_stay_in_the_workspace(p: SandboxPolicy)
    ensures
        policy_rules(p) is None <==> p is DangerFullAccess,
        policy_rules(p) matches Some(rs) ==> rs.len() > 0 && rs[0] == ("/"@, FsAccess::Read),
        policy_rules(p) matches Some(rs) ==> forall|i: int|
            0 <= i < rs.len() && #[trigger] rs[i].1 == FsAccess::Write ==> (p matches SandboxPolicy::WorkspaceWrite { root }
                && rs[i].0 == root@),
{
}

impl SandboxPolicy {
    /// The policy that a configuration's `sandbox_policy` string selects, with
    /// `cwd` as the workspace root of the workspace-write policy.
    pub fn from_name(name: &str, cwd: String) -> (p: SandboxPolicy)
        ensures
            p == policy_named(name@, cwd),
    {
        if str_eq(name, "ReadOnly") {
            SandboxPolicy::ReadOnly
        } else if str_eq(name, "DangerFullAccess") {
            SandboxPolicy::DangerFullAccess
        } else {
            SandboxPolicy::WorkspaceWrite { root: cwd }
        }
    }

    /// Whether this policy leaves commands unrestricted.
    pub fn is_unrestricted(&self) -> (b: bool)
        ensures
            b == (*self is DangerFullAccess),
    {
        match self {
            SandboxPolicy::DangerFullAccess => true,
            _ => false,
        }
    }
}

} // verus!
