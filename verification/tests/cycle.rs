use dwatch::config::{JobConfig, DEFAULT_DELAY};
use dwatch::entry::FileEntry;
use dwatch::job::{Job, Phase};
use dwatch::machine::{Action, Event, Step};
use dwatch::report::ScriptOutcome;
use std::collections::HashMap;

fn strings(list: &[&str]) -> Vec<String> {
    list.iter().map(|item| item.to_string()).collect()
}

fn config(scripts: &[&str], servers: &[&str]) -> JobConfig {
    JobConfig {
        dir: "D".to_string(),
        filetypes: None,
        scripts: Some(strings(scripts)),
        servers: Some(strings(servers)),
        delay: Some(1),
    }
}

fn step(log: &[&str], action: Action) -> Option<Step> {
    Some(Step { log: strings(log), action })
}

fn walk(modified: i128) -> Event {
    Event::Scanned(vec![Some(FileEntry::new("D/a.go", "go", Some(modified)))])
}

fn wrote(stdout: &str, stderr: &str) -> Event {
    Event::ScriptEnded(ScriptOutcome::Finished {
        stdout: stdout.to_string(),
        stderr: stderr.to_string(),
    })
}

#[test]
fn default_delay_is_two_seconds() {
    assert_eq!(DEFAULT_DELAY, 2);
}

#[test]
fn job_from_bare_config_polls_with_defaults() {
    let mut job = Job::from_config(JobConfig {
        dir: "some/dir".to_string(),
        filetypes: None,
        scripts: None,
        servers: None,
        delay: None,
    });
    assert_eq!(job.phase(), Phase::Idle);
    assert_eq!(job.last_modified("some/dir/a"), None);
    assert_eq!(job.process("anything"), None);
    assert_eq!(job.watch(Event::Wake), step(&[], Action::Scan("some/dir".to_string())));
    assert_eq!(job.phase(), Phase::Scanning);
    assert_eq!(
        job.watch(Event::Scanned(vec![Some(FileEntry::new("some/dir/a", "", Some(1)))])),
        step(&[], Action::Sleep(2))
    );
    assert_eq!(job.phase(), Phase::Sleeping);
    assert_eq!(job.last_modified("some/dir/a"), Some(1));
}

#[test]
fn configured_delay_is_slept() {
    let mut job = Job::from_config(JobConfig { delay: Some(30), ..config(&[], &[]) });
    job.watch(Event::Wake);
    assert_eq!(job.watch(Event::Scanned(vec![])), step(&[], Action::Sleep(30)));
}

#[test]
fn script_runs_on_first_sight_and_again_after_a_touch() {
    let mut job = Job::from_config(JobConfig {
        dir: "D".to_string(),
        filetypes: Some(strings(&["go"])),
        scripts: Some(strings(&["echo hi"])),
        servers: None,
        delay: Some(1),
    });

    assert_eq!(job.watch(Event::Wake), step(&[], Action::Scan("D".to_string())));
    assert_eq!(
        job.watch(walk(1_000)),
        step(&["running: 'echo hi'"], Action::RunScript("echo hi".to_string()))
    );
    assert_eq!(job.phase(), Phase::Script { index: 0 });
    assert_eq!(job.watch(wrote("hi\n", "")), step(&["STDOUT:\nhi\n"], Action::Sleep(1)));
    assert_eq!(job.phase(), Phase::Sleeping);

    assert_eq!(job.watch(Event::Wake), step(&[], Action::Scan("D".to_string())));
    assert_eq!(job.watch(walk(1_000)), step(&[], Action::Sleep(1)));

    assert_eq!(job.watch(Event::Wake), step(&[], Action::Scan("D".to_string())));
    assert_eq!(
        job.watch(walk(2_000)),
        step(&["running: 'echo hi'"], Action::RunScript("echo hi".to_string()))
    );
    assert_eq!(job.watch(wrote("hi\n", "")), step(&["STDOUT:\nhi\n"], Action::Sleep(1)));
}

#[test]
fn server_is_spawned_at_first_and_replaced_after() {
    let mut job = Job::from_config(config(&[], &["sleep 100"]));

    job.watch(Event::Wake);
    assert_eq!(
        job.watch(walk(1)),
        step(&["restarting: 'sleep 100'"], Action::Spawn("sleep 100".to_string()))
    );
    assert_eq!(job.phase(), Phase::Spawning { index: 0 });
    assert_eq!(job.process("sleep 100"), None);
    assert_eq!(job.watch(Event::Spawned(Some(4711))), step(&[], Action::Sleep(1)));
    assert_eq!(job.process("sleep 100"), Some(4711));

    job.watch(Event::Wake);
    assert_eq!(job.watch(walk(2)), step(&[], Action::Kill(4711)));
    assert_eq!(job.phase(), Phase::Killing { index: 0 });
    assert_eq!(job.process("sleep 100"), Some(4711));
    assert_eq!(
        job.watch(Event::Killed(true)),
        step(&["restarting: 'sleep 100'"], Action::Spawn("sleep 100".to_string()))
    );
    assert_eq!(job.process("sleep 100"), None);
    assert_eq!(job.watch(Event::Spawned(Some(4712))), step(&[], Action::Sleep(1)));
    assert_eq!(job.process("sleep 100"), Some(4712));
}

#[test]
fn server_is_left_alone_without_a_change() {
    let mut job = Job::from_config(config(&[], &["sleep 100"]));
    job.watch(Event::Wake);
    job.watch(walk(1));
    job.watch(Event::Spawned(Some(7)));
    job.watch(Event::Wake);
    assert_eq!(job.watch(walk(1)), step(&[], Action::Sleep(1)));
    assert_eq!(job.process("sleep 100"), Some(7));
}

#[test]
fn scripts_run_in_order_before_servers() {
    let mut job = Job::from_config(config(&["first", "second"], &["one", "two"]));
    job.watch(Event::Wake);
    assert_eq!(
        job.watch(walk(1)),
        step(&["running: 'first'"], Action::RunScript("first".to_string()))
    );
    assert_eq!(
        job.watch(wrote("a", "b")),
        step(
            &["STDOUT:\na", "STDERR:\nb", "running: 'second'"],
            Action::RunScript("second".to_string())
        )
    );
    assert_eq!(job.phase(), Phase::Script { index: 1 });
    assert_eq!(
        job.watch(wrote("", "")),
        step(&["STDOUT:\n", "restarting: 'one'"], Action::Spawn("one".to_string()))
    );
    assert_eq!(
        job.watch(Event::Spawned(Some(1))),
        step(&["restarting: 'two'"], Action::Spawn("two".to_string()))
    );
    assert_eq!(job.phase(), Phase::Spawning { index: 1 });
    assert_eq!(job.watch(Event::Spawned(Some(2))), step(&[], Action::Sleep(1)));
    assert_eq!(job.process("one"), Some(1));
    assert_eq!(job.process("two"), Some(2));
}

#[test]
fn failing_script_does_not_stop_the_next() {
    let mut job = Job::from_config(config(&["false", "echo on"], &[]));
    job.watch(Event::Wake);
    job.watch(walk(1));
    assert_eq!(
        job.watch(Event::ScriptEnded(ScriptOutcome::Failed)),
        step(
            &["failed to execute process", "running: 'echo on'"],
            Action::RunScript("echo on".to_string())
        )
    );
    assert_eq!(job.watch(wrote("on\n", "")), step(&["STDOUT:\non\n"], Action::Sleep(1)));
}

#[test]
fn failed_kill_is_logged_and_the_restart_goes_on() {
    let mut job = Job::from_config(config(&[], &["serve"]));
    job.watch(Event::Wake);
    job.watch(walk(1));
    job.watch(Event::Spawned(Some(10)));
    job.watch(Event::Wake);
    assert_eq!(job.watch(walk(2)), step(&[], Action::Kill(10)));
    assert_eq!(
        job.watch(Event::Killed(false)),
        step(&["failed to kill child", "restarting: 'serve'"], Action::Spawn("serve".to_string()))
    );
    assert_eq!(job.watch(Event::Spawned(Some(11))), step(&[], Action::Sleep(1)));
    assert_eq!(job.process("serve"), Some(11));
}

#[test]
fn failed_spawn_is_logged_and_tried_again_at_the_next_change() {
    let mut job = Job::from_config(config(&[], &["serve", "other"]));
    job.watch(Event::Wake);
    job.watch(walk(1));
    assert_eq!(
        job.watch(Event::Spawned(None)),
        step(
            &["failed to spawn process", "restarting: 'other'"],
            Action::Spawn("other".to_string())
        )
    );
    assert_eq!(job.watch(Event::Spawned(Some(5))), step(&[], Action::Sleep(1)));
    assert_eq!(job.process("serve"), None);
    assert_eq!(job.process("other"), Some(5));

    job.watch(Event::Wake);
    assert_eq!(
        job.watch(walk(2)),
        step(&["restarting: 'serve'"], Action::Spawn("serve".to_string()))
    );
    assert_eq!(job.watch(Event::Spawned(Some(6))), step(&[], Action::Kill(5)));
    assert_eq!(job.process("serve"), Some(6));
}

#[test]
fn failed_spawn_after_a_kill_leaves_no_process() {
    let mut job = Job::from_config(config(&[], &["serve"]));
    job.watch(Event::Wake);
    job.watch(walk(1));
    job.watch(Event::Spawned(Some(10)));
    job.watch(Event::Wake);
    job.watch(walk(2));
    job.watch(Event::Killed(true));
    assert_eq!(job.watch(Event::Spawned(None)), step(&["failed to spawn process"], Action::Sleep(1)));
    assert_eq!(job.process("serve"), None);
}

#[test]
fn server_named_twice_has_one_process() {
    let mut job = Job::from_config(config(&[], &["serve", "serve"]));
    job.watch(Event::Wake);
    job.watch(walk(1));
    assert_eq!(job.watch(Event::Spawned(Some(1))), step(&[], Action::Kill(1)));
    assert_eq!(
        job.watch(Event::Killed(true)),
        step(&["restarting: 'serve'"], Action::Spawn("serve".to_string()))
    );
    assert_eq!(job.watch(Event::Spawned(Some(2))), step(&[], Action::Sleep(1)));
    assert_eq!(job.process("serve"), Some(2));
}

#[test]
fn event_out_of_turn_is_refused() {
    let mut job = Job::from_config(config(&["echo hi"], &["serve"]));
    assert_eq!(job.watch(walk(1)), None);
    assert_eq!(job.watch(wrote("", "")), None);
    assert_eq!(job.watch(Event::Killed(true)), None);
    assert_eq!(job.watch(Event::Spawned(Some(1))), None);
    assert_eq!(job.phase(), Phase::Idle);
    assert_eq!(job.last_modified("D/a.go"), None);
    assert_eq!(job.process("serve"), None);

    job.watch(Event::Wake);
    assert_eq!(job.watch(Event::Wake), None);
    assert_eq!(job.phase(), Phase::Scanning);

    job.watch(walk(1));
    assert_eq!(job.watch(walk(2)), None);
    assert_eq!(job.watch(Event::Wake), None);
    assert_eq!(job.watch(Event::Spawned(Some(1))), None);
    assert_eq!(job.phase(), Phase::Script { index: 0 });
    assert_eq!(job.last_modified("D/a.go"), Some(1));

    job.watch(wrote("", ""));
    assert_eq!(job.watch(Event::Killed(true)), None);
    assert_eq!(job.phase(), Phase::Spawning { index: 0 });
}

/// A runtime without a world behind it: every script writes its own
/// command, every process gets the next free handle, and nothing fails.
struct Stage {
    files: Vec<Option<FileEntry>>,
    alive: HashMap<u64, String>,
    next_handle: u64,
    ran: Vec<String>,
    slept: Vec<u64>,
}

impl Stage {
    fn new() -> Stage {
        Stage { files: vec![], alive: HashMap::new(), next_handle: 100, ran: vec![], slept: vec![] }
    }

    fn touch(&mut self, path: &str, modified: i128) {
        self.files.retain(|file| file.as_ref().map(|f| f.path != path).unwrap_or(true));
        self.files.push(Some(FileEntry::new(path, "rs", Some(modified))));
    }

    fn perform(&mut self, action: Action) -> Event {
        match action {
            Action::Scan(_) => Event::Scanned(self.files.clone()),
            Action::RunScript(command) => {
                self.ran.push(command.clone());
                Event::ScriptEnded(ScriptOutcome::Finished { stdout: command, stderr: String::new() })
            }
            Action::Kill(handle) => Event::Killed(self.alive.remove(&handle).is_some()),
            Action::Spawn(command) => {
                self.next_handle += 1;
                self.alive.insert(self.next_handle, command);
                Event::Spawned(Some(self.next_handle))
            }
            Action::Sleep(seconds) => {
                self.slept.push(seconds);
                Event::Wake
            }
        }
    }

    fn running(&self, command: &str) -> Vec<u64> {
        let mut handles: Vec<u64> =
            self.alive.iter().filter(|(_, c)| c.as_str() == command).map(|(h, _)| *h).collect();
        handles.sort();
        handles
    }

    /// Runs `job` until it has slept once more.
    fn cycle(&mut self, job: &mut Job, servers: &[&str]) {
        let slept = self.slept.len();
        let mut event = Event::Wake;
        while self.slept.len() == slept {
            let step = job.watch(event).unwrap();
            event = self.perform(step.action);
            for server in servers {
                assert!(self.running(server).len() <= 1);
            }
        }
    }
}

#[test]
fn every_changed_cycle_leaves_one_process_for_each_server() {
    let servers = ["serve", "proxy"];
    let mut job = Job::from_config(config(&["build"], &servers));
    let mut stage = Stage::new();

    stage.touch("D/a.rs", 1);
    stage.cycle(&mut job, &servers);
    assert_eq!(stage.running("serve"), vec![101]);
    assert_eq!(stage.running("proxy"), vec![102]);
    assert_eq!(job.process("serve"), Some(101));
    assert_eq!(job.process("proxy"), Some(102));

    stage.touch("D/a.rs", 2);
    stage.cycle(&mut job, &servers);
    assert_eq!(stage.running("serve"), vec![103]);
    assert_eq!(stage.running("proxy"), vec![104]);
    assert_eq!(job.process("serve"), Some(103));
    assert_eq!(job.process("proxy"), Some(104));

    stage.cycle(&mut job, &servers);
    assert_eq!(stage.running("serve"), vec![103]);
    assert_eq!(stage.running("proxy"), vec![104]);

    stage.touch("D/b.rs", 2);
    stage.cycle(&mut job, &servers);
    assert_eq!(stage.running("serve"), vec![105]);
    assert_eq!(stage.running("proxy"), vec![106]);
    assert_eq!(stage.alive.len(), 2);

    assert_eq!(stage.ran, vec!["build", "build", "build"]);
    assert_eq!(stage.slept, vec![1, 1, 1, 1]);
}

#[test]
fn every_script_runs_once_in_each_changed_cycle() {
    let mut job = Job::from_config(config(&["one", "two", "three"], &[]));
    let mut stage = Stage::new();
    stage.touch("D/a.rs", 1);
    stage.cycle(&mut job, &[]);
    assert_eq!(stage.ran, vec!["one", "two", "three"]);
    stage.cycle(&mut job, &[]);
    assert_eq!(stage.ran, vec!["one", "two", "three"]);
    stage.touch("D/a.rs", 0);
    stage.cycle(&mut job, &[]);
    assert_eq!(stage.ran, vec!["one", "two", "three", "one", "two", "three"]);
}
