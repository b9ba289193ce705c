//! The Ansible provider executor's decidable half: the exact command lines
//! handed to the external tool, the per-invocation variables file path, and
//! the judgement of a finished invocation's exit report.
//!
//! Launching the process and waiting on it is I/O and lives with the caller;
//! it hands the captured outcome back as an [`ExitReport`].

use vstd::prelude::*;
use vstd::string::StringExecFns;

use crate::errors::ApplyError;

verus! {

/// Wraps invocations of the external playbook tool, scoped to a working
/// directory where per-invocation variables files are placed.
pub struct AnsibleWrapper {
    pub working_dir: String,
}

impl AnsibleWrapper {
    pub fn new() -> (r: Self)
        ensures
            r.working_dir@ == "/tmp/tbd-cfg"@,
    {
        AnsibleWrapper { working_dir: "/tmp/tbd-cfg".to_owned() }
    }
}

impl Default for AnsibleWrapper {
    fn default() -> (r: Self)
        ensures
            r.working_dir@ == "/tmp/tbd-cfg"@,
    {
        AnsibleWrapper::new()
    }
}

/// The external executable's name.
pub fn program_name() -> (r: String)
    ensures
        r@ == "ansible-playbook"@,
{
    "ansible-playbook".to_owned()
}

impl AnsibleWrapper {
    /// The variables file for one invocation, namespaced by the configuration
    /// name so concurrent applies never race on a shared file.
    pub fn vars_file_path(&self, config_name: &String) -> (r: String)
        ensures
            r@ == self.working_dir@ + "/vars-"@ + config_name@ + ".json"@,
    {
        let mut s = self.working_dir.clone();
        s.append("/vars-");
        s.append(config_name.as_str());
        s.append(".json");
        s
    }

    /// Arguments for running a playbook: the inventory flag, extra variables
    /// taken from the variables file by path indirection, and the playbook as
    /// the positional argument.
    pub fn playbook_args(&self, playbook: &String, inventory: &String, vars_file: &String) -> (r:
        Vec<String>)
        ensures
            r@.len() == 5,
            r@[0]@ == "-i"@,
            r@[1]@ == inventory@,
            r@[2]@ == "--extra-vars"@,
            r@[3]@ == "@"@ + vars_file@,
            r@[4]@ == playbook@,
    {
        let mut at = "@".to_owned();
        at.append(vars_file.as_str());
        let mut args: Vec<String> = Vec::new();
        args.push("-i".to_owned());
        args.push(inventory.clone());
        args.push("--extra-vars".to_owned());
        args.push(at);
        args.push(playbook.clone());
        args
    }

    /// Arguments for validation: the tool's syntax-check mode, which runs no
    /// task.
    pub fn syntax_check_args(&self, playbook: &String, inventory: &String) -> (r: Vec<String>)
        ensures
            r@.len() == 4,
            r@[0]@ == "--syntax-check"@,
            r@[1]@ == "-i"@,
            r@[2]@ == inventory@,
            r@[3]@ == playbook@,
    {
        let mut args: Vec<String> = Vec::new();
        args.push("--syntax-check".to_owned());
        args.push("-i".to_owned());
        args.push(inventory.clone());
        args.push(playbook.clone());
        args
    }

    /// Arguments for the install check: a bare version query.
    pub fn version_args(&self) -> (r: Vec<String>)
        ensures
            r@.len() == 1,
            r@[0]@ == "--version"@,
    {
        let mut args: Vec<String> = Vec::new();
        args.push("--version".to_owned());
        args
    }
}

/// What one finished invocation reported: whether it exited successfully,
/// and both captured streams.
#[derive(Debug, PartialEq, Eq)]
pub struct ExitReport {
    pub success: bool,
    pub stdout: String,
    pub stderr: String,
}

/// Judges a playbook run: success exactly on a successful exit; any failure
/// carries both captured streams verbatim for diagnosis.
pub fn interpret_run(report: ExitReport) -> (r: Result<(), ApplyError>)
    ensures
        r is Ok <==> report.success,
        r matches Err(e) ==> e == (ApplyError::ExternalTool {
            stdout: report.stdout,
            stderr: report.stderr,
        }),
{
    if report.success {
        Ok(())
    } else {
        Err(ApplyError::ExternalTool { stdout: report.stdout, stderr: report.stderr })
    }
}

/// Judges a syntax check: success exactly on a successful exit; a failure
/// carries the captured diagnostic text verbatim.
pub fn interpret_validation(report: ExitReport) -> (r: Result<(), ApplyError>)
    ensures
        r is Ok <==> report.success,
        r matches Err(e) ==> e == (ApplyError::ExternalTool {
            stdout: report.stdout,
            stderr: report.stderr,
        }),
{
    interpret_run(report)
}

/// Judges the version query: any failure means the tool is not installed or
/// not accessible.
pub fn interpret_install_check(report: ExitReport) -> (r: Result<(), ApplyError>)
    ensures
        r is Ok <==> report.success,
        r matches Err(e) ==> e == (ApplyError::ExternalTool {
            stdout: report.stdout,
            stderr: report.stderr,
        }),
{
    interpret_run(report)
}

/// After a successful run the variables file is deleted; a failed deletion
/// is a distinct, non-fatal warning — it never turns the run into a failure.
pub fn cleanup_warning(deleted: bool, path: &String) -> (r: Option<ApplyError>)
    ensures
        deleted <==> r is None,
        r matches Some(e) ==> e == (ApplyError::CleanupFailed { path: *path }),
{
    if deleted {
        None
    } else {
        Some(ApplyError::CleanupFailed { path: path.clone() })
    }
}

} // verus!
