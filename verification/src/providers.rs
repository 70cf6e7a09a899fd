//! Providers of context about the system the agent works on. Each reports
//! on one fact; gathering the fact (running git, reading the clock) is left
//! to the caller, and the provider turns it into the text the agent sees.
use vstd::prelude::*;
use vstd::string::*;
use crate::text::{concat2, decimal, decimal_string, trim, trim_str};

verus! {

broadcast use vstd::string::group_string_axioms;

/// A source of context about the system.
pub trait SystemContextProvider {
    /// The provider's name.
    fn name(&self) -> &'static str;
}

/// Reports the working tree's changes.
pub struct GitStatusProvider;

/// Reports the working directory.
pub struct CwdProvider;

/// Reports the time.
pub struct DateProvider;

/// Reports the platform.
pub struct OsProvider;

impl SystemContextProvider for GitStatusProvider {
    fn name(&self) -> (n: &'static str)
        ensures
            n@ == "git_status"@,
    {
        "git_status"
    }
}

impl SystemContextProvider for CwdProvider {
    fn name(&self) -> (n: &'static str)
        ensures
            n@ == "cwd"@,
    {
        "cwd"
    }
}

impl SystemContextProvider for DateProvider {
    fn name(&self) -> (n: &'static str)
        ensures
            n@ == "date"@,
    {
        "date"
    }
}

impl SystemContextProvider for OsProvider {
    fn name(&self) -> (n: &'static str)
        ensures
            n@ == "os"@,
    {
        "os"
    }
}

/// What `git status --short` says of the working tree: an error note when
/// it failed, a clean tree when it listed nothing, else the list.
pub open spec fn git_status_text(succeeded: bool, stdout: Seq<char>) -> Seq<char> {
    if !succeeded {
        "Not a git repository or git error"@
    } else if trim(stdout).len() == 0 {
        "Clean working tree"@
    } else {
        "Modified files:\n"@ + trim(stdout)
    }
}

impl GitStatusProvider {
    /// The report for a run of `git status --short` that succeeded or not
    /// and printed `stdout`.
    pub fn summarize(&self, succeeded: bool, stdout: &str) -> (s: String)
        ensures
            s@ == git_status_text(succeeded, stdout@),
    {
        if !succeeded {
            return String::from_str("Not a git repository or git error");
        }
        let t = trim_str(stdout);
        if t.as_str().is_empty() {
            String::from_str("Clean working tree")
        } else {
            concat2("Modified files:\n", t.as_str())
        }
    }
}

impl CwdProvider {
    /// The report for a workspace shown as `shown`.
    pub fn describe(&self, shown: &str) -> (s: String)
        ensures
            s@ == shown@,
    {
        String::from_str(shown)
    }
}

impl DateProvider {
    /// The report for `secs` seconds since the Unix epoch.
    pub fn describe(&self, secs: u64) -> (s: String)
        ensures
            s@ == "Unix timestamp: "@ + decimal(secs as nat),
    {
        let d = decimal_string(secs);
        concat2("Unix timestamp: ", d.as_str())
    }
}

impl OsProvider {
    /// The report for an operating system and an architecture.
    pub fn describe(&self, os: &str, arch: &str) -> (s: String)
        ensures
            s@ == os@ + " ("@ + arch@ + ")"@,
    {
        let mut s = String::from_str(os);
        s.append(" (");
        s.append(arch);
        s.append(")");
        s
    }
}

} // verus!
