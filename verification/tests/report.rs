use dwatch::report::{announce_restart, announce_script, report_script, ScriptOutcome};

#[test]
fn script_is_announced_in_quotes() {
    assert_eq!(announce_script("echo hi"), "running: 'echo hi'");
    assert_eq!(announce_script(""), "running: ''");
}

#[test]
fn restart_is_announced_in_quotes() {
    assert_eq!(announce_restart("sleep 100"), "restarting: 'sleep 100'");
}

#[test]
fn report_shows_standard_output_alone_when_nothing_else_was_written() {
    let outcome = ScriptOutcome::Finished { stdout: "hi\n".to_string(), stderr: String::new() };
    assert_eq!(report_script(&outcome), vec!["STDOUT:\nhi\n".to_string()]);
}

#[test]
fn report_shows_empty_standard_output() {
    let outcome = ScriptOutcome::Finished { stdout: String::new(), stderr: String::new() };
    assert_eq!(report_script(&outcome), vec!["STDOUT:\n".to_string()]);
}

#[test]
fn report_shows_standard_error_after_standard_output() {
    let outcome =
        ScriptOutcome::Finished { stdout: "out".to_string(), stderr: "oops\n".to_string() };
    assert_eq!(
        report_script(&outcome),
        vec!["STDOUT:\nout".to_string(), "STDERR:\noops\n".to_string()]
    );
}

#[test]
fn report_of_a_script_that_did_not_run_is_one_line() {
    assert_eq!(
        report_script(&ScriptOutcome::Failed),
        vec!["failed to execute process".to_string()]
    );
}
