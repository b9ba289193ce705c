//! The error kinds the apply, validate and import flows surface, and the
//! diagnostic text each carries.

use vstd::prelude::*;
use vstd::string::StringExecFns;

verus! {

/// A sequence of characters occurs contiguously inside another.
pub open spec fn text_contains(hay: Seq<char>, needle: Seq<char>) -> bool {
    exists|i: int|
        0 <= i && i + needle.len() <= hay.len() && #[trigger] hay.subrange(i, i + needle.len())
            == needle
}

/// Everything the library's flows can fail with. Each variant carries the
/// values needed to diagnose the failure without re-running.
#[derive(Debug, PartialEq, Eq)]
pub enum ApplyError {
    /// The configuration names one target and the caller requested another;
    /// nothing was written and no provider was invoked.
    TargetMismatch { expected: String, requested: String },
    /// The configuration document is missing a field or gives one the wrong
    /// shape.
    InvalidConfig,
    /// The shell provider's execution path is a deliberate stub: it fails
    /// loudly instead of silently succeeding.
    ShellNotImplemented,
    /// The state store could not record or delete a resource.
    StateStore { id: String },
    /// The external tool exited with a failure; both captured streams are
    /// kept verbatim.
    ExternalTool { stdout: String, stderr: String },
    /// The temporary variables file survived a successful run; surfaced as a
    /// warning distinct from the run's own outcome.
    CleanupFailed { path: String },
}

/// A middle sequence occurs in the concatenation around it.
proof fn lemma_concat_contains(pre: Seq<char>, mid: Seq<char>, post: Seq<char>)
    ensures
        text_contains(pre + mid + post, mid),
{
    let hay = pre + mid + post;
    let i = pre.len() as int;
    assert(hay.subrange(i, i + mid.len()) =~= mid);
}

impl ApplyError {
    /// Renders the error for a caller. A tool failure's text contains both
    /// captured streams verbatim; a target mismatch names both targets.
    pub fn message(&self) -> (r: String)
        ensures
            self matches ApplyError::ExternalTool { stdout, stderr } ==> text_contains(
                r@,
                stdout@,
            ) && text_contains(r@, stderr@),
            self matches ApplyError::TargetMismatch { expected, requested } ==> text_contains(
                r@,
                expected@,
            ) && text_contains(r@, requested@),
            self matches ApplyError::CleanupFailed { path } ==> text_contains(r@, path@),
            self matches ApplyError::StateStore { id } ==> text_contains(r@, id@),
    {
        match self {
            ApplyError::TargetMismatch { expected, requested } => {
                let mut s = "target mismatch: config specifies '".to_owned();
                s.append(expected.as_str());
                s.append("' but '");
                s.append(requested.as_str());
                s.append("' was requested");
                proof {
                    lemma_concat_contains(
                        "target mismatch: config specifies '"@,
                        expected@,
                        "' but '"@ + requested@ + "' was requested"@,
                    );
                    lemma_concat_contains(
                        "target mismatch: config specifies '"@ + expected@ + "' but '"@,
                        requested@,
                        "' was requested"@,
                    );
                    assert(s@ =~= "target mismatch: config specifies '"@ + expected@ + ("' but '"@
                        + requested@ + "' was requested"@));
                    assert(s@ =~= "target mismatch: config specifies '"@ + expected@ + "' but '"@
                        + requested@ + "' was requested"@);
                }
                s
            },
            ApplyError::InvalidConfig => "invalid configuration document".to_owned(),
            ApplyError::ShellNotImplemented => "shell provider execution is not implemented".to_owned(),
            ApplyError::StateStore { id } => {
                let mut s = "state store operation failed for '".to_owned();
                s.append(id.as_str());
                s.append("'");
                proof {
                    lemma_concat_contains(
                        "state store operation failed for '"@,
                        id@,
                        "'"@,
                    );
                    assert(s@ =~= "state store operation failed for '"@ + id@ + "'"@);
                }
                s
            },
            ApplyError::ExternalTool { stdout, stderr } => {
                let mut s = "ansible-playbook failed:\nSTDOUT:\n".to_owned();
                s.append(stdout.as_str());
                s.append("\nSTDERR:\n");
                s.append(stderr.as_str());
                proof {
                    lemma_concat_contains(
                        "ansible-playbook failed:\nSTDOUT:\n"@,
                        stdout@,
                        "\nSTDERR:\n"@ + stderr@,
                    );
                    lemma_concat_contains(
                        "ansible-playbook failed:\nSTDOUT:\n"@ + stdout@ + "\nSTDERR:\n"@,
                        stderr@,
                        Seq::<char>::empty(),
                    );
                    assert(s@ =~= "ansible-playbook failed:\nSTDOUT:\n"@ + stdout@ + ("\nSTDERR:\n"@
                        + stderr@));
                    assert(s@ =~= "ansible-playbook failed:\nSTDOUT:\n"@ + stdout@ + "\nSTDERR:\n"@
                        + stderr@);
                    assert(s@ =~= ("ansible-playbook failed:\nSTDOUT:\n"@ + stdout@ + "\nSTDERR:\n"@
                        + stderr@) + Seq::<char>::empty());
                }
                s
            },
            ApplyError::CleanupFailed { path } => {
                let mut s = "failed to clean up variables file '".to_owned();
                s.append(path.as_str());
                s.append("'");
                proof {
                    lemma_concat_contains(
                        "failed to clean up variables file '"@,
                        path@,
                        "'"@,
                    );
                    assert(s@ =~= "failed to clean up variables file '"@ + path@ + "'"@);
                }
                s
            },
        }
    }
}

} // verus!
