//! The lines that a job writes to its log.
use vstd::prelude::*;
use vstd::string::StringExecFns;

verus! {

/// How the run of a script ended.
#[derive(Clone, Debug, PartialEq, Eq)]
pub enum ScriptOutcome {
    /// The script ran to its end, with whatever exit status, and wrote this.
    Finished { stdout: String, stderr: String },
    /// The script could not be run.
    Failed,
}

/// A [`ScriptOutcome`], as mathematical values.
pub enum OutcomeView {
    Finished { stdout: Seq<char>, stderr: Seq<char> },
    Failed,
}

impl View for ScriptOutcome {
    type V = OutcomeView;

    open spec fn view(&self) -> OutcomeView {
        match self {
            ScriptOutcome::Finished { stdout, stderr } => OutcomeView::Finished {
                stdout: stdout@,
                stderr: stderr@,
            },
            ScriptOutcome::Failed => OutcomeView::Failed,
        }
    }
}

/// The line that says that a script is about to run.
pub open spec fn running_line(command: Seq<char>) -> Seq<char> {
    "running: '"@ + command + "'"@
}

/// The line that says that a server is about to be started.
pub open spec fn restarting_line(command: Seq<char>) -> Seq<char> {
    "restarting: '"@ + command + "'"@
}

/// The line that shows what a script wrote to its standard output.
pub open spec fn stdout_line(stdout: Seq<char>) -> Seq<char> {
    "STDOUT:\n"@ + stdout
}

/// The line that shows what a script wrote to its standard error.
pub open spec fn stderr_line(stderr: Seq<char>) -> Seq<char> {
    "STDERR:\n"@ + stderr
}

/// The line that says that a script could not be run.
pub open spec fn script_failed_line() -> Seq<char> {
    "failed to execute process"@
}

/// The line that says that the process of a server could not be terminated.
pub open spec fn kill_failed_line() -> Seq<char> {
    "failed to kill child"@
}

/// The line that says that no process could be spawned for a server.
pub open spec fn spawn_failed_line() -> Seq<char> {
    "failed to spawn process"@
}

/// The lines that report the run of a script: its standard output always,
/// its standard error only if it wrote any; one line if it could not be run.
pub open spec fn report_lines(outcome: OutcomeView) -> Seq<Seq<char>> {
    match outcome {
        OutcomeView::Finished { stdout, stderr } => if stderr.len() == 0 {
            seq![stdout_line(stdout)]
        } else {
            seq![stdout_line(stdout), stderr_line(stderr)]
        },
        OutcomeView::Failed => seq![script_failed_line()],
    }
}

/// `head` followed by `tail`.
fn joined(head: &str, tail: &str) -> (line: String)
    ensures
        line@ == head@ + tail@,
{
    let mut line = head.to_owned();
    line.append(tail);
    line
}

/// Writes the line that says that the script `command` is about to run.
pub fn announce_script(command: &str) -> (line: String)
    ensures
        line@ == running_line(command@),
{
    let mut line = joined("running: '", command);
    line.append("'");
    line
}

/// Writes the line that says that the server `command` is about to be started.
pub fn announce_restart(command: &str) -> (line: String)
    ensures
        line@ == restarting_line(command@),
{
    let mut line = joined("restarting: '", command);
    line.append("'");
    line
}

/// Writes the lines that report the run of a script.
pub fn report_script(outcome: &ScriptOutcome) -> (lines: Vec<String>)
    ensures
        lines.deep_view() == report_lines(outcome@),
{
    let mut lines: Vec<String> = Vec::new();
    match outcome {
        ScriptOutcome::Finished { stdout, stderr } => {
            lines.push(joined("STDOUT:\n", stdout.as_str()));
            if !stderr.as_str().is_empty() {
                lines.push(joined("STDERR:\n", stderr.as_str()));
            }
        },
        ScriptOutcome::Failed => {
            lines.push("failed to execute process".to_owned());
        },
    }
    lines
}

} // verus!
