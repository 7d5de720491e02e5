//! The poll cycle of a job as a machine: the runtime performs one action at
//! a time and reports what came of it as an event, and the job answers each
//! event with the lines to log and the next action.
use vstd::prelude::*;
use crate::detect::{changes_in_scan, history_after_scan};
use crate::entry::{FileEntry, FileSeen};
use crate::job::{JobView, PhaseView};
use crate::report::{
    OutcomeView, ScriptOutcome, kill_failed_line, report_lines, restarting_line, running_line,
    spawn_failed_line,
};

verus! {

/// What the runtime is to do next for a job.
#[derive(Clone, Debug, PartialEq, Eq)]
pub enum Action {
    /// Walk the directory of this name, and report what is under it.
    Scan(String),
    /// Run this command in a shell to its end, and report what it wrote.
    RunScript(String),
    /// Terminate the process with this handle.
    Kill(u64),
    /// Spawn a shell that runs this command, and do not wait for it.
    Spawn(String),
    /// Wait this many seconds.
    Sleep(u64),
}

/// An [`Action`], as mathematical values.
pub enum ActionView {
    Scan(Seq<char>),
    RunScript(Seq<char>),
    Kill(u64),
    Spawn(Seq<char>),
    Sleep(u64),
}

impl View for Action {
    type V = ActionView;

    open spec fn view(&self) -> ActionView {
        match self {
            Action::Scan(dir) => ActionView::Scan(dir@),
            Action::RunScript(command) => ActionView::RunScript(command@),
            Action::Kill(handle) => ActionView::Kill(*handle),
            Action::Spawn(command) => ActionView::Spawn(command@),
            Action::Sleep(seconds) => ActionView::Sleep(*seconds),
        }
    }
}

/// What the runtime reports to a job.
#[derive(Clone, Debug, PartialEq, Eq)]
pub enum Event {
    /// The job is started, or its delay has run out.
    Wake,
    /// The walk is done. An item is `None` where the walk failed on an entry.
    Scanned(Vec<Option<FileEntry>>),
    /// The script has ended, or could not be run.
    ScriptEnded(ScriptOutcome),
    /// The attempt to terminate the process is over; `true` if it is terminated.
    Killed(bool),
    /// The attempt to spawn a process is over, with the handle of the new
    /// process if there is one. The runtime gives no two processes that
    /// run at the same time the same handle.
    Spawned(Option<u64>),
}

/// An [`Event`], as mathematical values.
pub enum EventView {
    Wake,
    Scanned(Seq<Option<FileSeen>>),
    ScriptEnded(OutcomeView),
    Killed(bool),
    Spawned(Option<u64>),
}

impl View for Event {
    type V = EventView;

    open spec fn view(&self) -> EventView {
        match self {
            Event::Wake => EventView::Wake,
            Event::Scanned(walk) => EventView::Scanned(walk.deep_view()),
            Event::ScriptEnded(outcome) => EventView::ScriptEnded(outcome@),
            Event::Killed(done) => EventView::Killed(*done),
            Event::Spawned(handle) => EventView::Spawned(*handle),
        }
    }
}

/// The answer of a job to an event.
#[derive(Clone, Debug, PartialEq, Eq)]
pub struct Step {
    /// The lines to write to the log, in order, before the action is performed.
    pub log: Vec<String>,
    /// What to do next.
    pub action: Action,
}

/// A [`Step`], as mathematical values.
#[verifier::ext_equal]
pub struct StepView {
    pub log: Seq<Seq<char>>,
    pub action: ActionView,
}

impl View for Step {
    type V = StepView;

    open spec fn view(&self) -> StepView {
        StepView { log: self.log.deep_view(), action: self.action@ }
    }
}

impl JobView {
    /// Whether the job, in its phase, waits for this event.
    pub open spec fn accepts(self, event: EventView) -> bool {
        match event {
            EventView::Wake => self.phase is Idle || self.phase is Sleeping,
            EventView::Scanned(_) => self.phase is Scanning,
            EventView::ScriptEnded(_) => self.phase is Script,
            EventView::Killed(_) => self.phase is Killing,
            EventView::Spawned(_) => self.phase is Spawning,
        }
    }

    /// The cycle ends: the job sleeps for its delay.
    pub open spec fn sleep(self, log: Seq<Seq<char>>) -> (JobView, StepView) {
        (
            JobView { phase: PhaseView::Sleeping, ..self },
            StepView { log, action: ActionView::Sleep(self.delay) },
        )
    }

    /// The servers from the one at `index` on are due. The first of them is
    /// taken up: its process is terminated if it has one, and a process is
    /// spawned for it at once if it has none. With no server left the job
    /// sleeps.
    pub open spec fn run_servers(self, index: nat, log: Seq<Seq<char>>) -> (JobView, StepView) {
        if index < self.servers.len() {
            let command = self.servers[index as int];
            if self.processes.contains_key(command) {
                (
                    JobView { phase: PhaseView::Killing { index }, ..self },
                    StepView { log, action: ActionView::Kill(self.processes[command]) },
                )
            } else {
                (
                    JobView { phase: PhaseView::Spawning { index }, ..self },
                    StepView {
                        log: log.push(restarting_line(command)),
                        action: ActionView::Spawn(command),
                    },
                )
            }
        } else {
            self.sleep(log)
        }
    }

    /// The scripts from the one at `index` on are due. The first of them is
    /// run; with no script left the servers are due, from the first.
    pub open spec fn run_scripts(self, index: nat, log: Seq<Seq<char>>) -> (JobView, StepView) {
        if index < self.scripts.len() {
            (
                JobView { phase: PhaseView::Script { index }, ..self },
                StepView {
                    log: log.push(running_line(self.scripts[index as int])),
                    action: ActionView::RunScript(self.scripts[index as int]),
                },
            )
        } else {
            self.run_servers(0, log)
        }
    }

    /// The job after a walk: the history has taken in the sightings of the
    /// walk. If any of them counts as a change, the scripts are due and
    /// after them the servers; if none does, the job sleeps.
    pub open spec fn after_scan(self, walk: Seq<Option<FileSeen>>) -> (JobView, StepView) {
        let scanned = JobView {
            history: history_after_scan(self.filetypes, self.history, walk),
            ..self
        };
        if changes_in_scan(self.filetypes, self.history, walk) > 0 {
            scanned.run_scripts(0, Seq::empty())
        } else {
            scanned.sleep(Seq::empty())
        }
    }

    /// The job after the attempt to terminate the process of the server at
    /// `index`: the old handle is given up whether or not the attempt
    /// succeeded, a failure is logged, and a new process is spawned.
    pub open spec fn after_kill(self, index: nat, done: bool) -> (JobView, StepView) {
        let command = self.servers[index as int];
        let log = if done {
            Seq::empty()
        } else {
            seq![kill_failed_line()]
        };
        (
            JobView {
                phase: PhaseView::Spawning { index },
                processes: self.processes.remove(command),
                ..self
            },
            StepView { log: log.push(restarting_line(command)), action: ActionView::Spawn(command) },
        )
    }

    /// The job after the attempt to spawn a process for the server at
    /// `index`: the new handle is kept for the command, or the failure is
    /// logged and the server left without a process; then the next server is
    /// due.
    pub open spec fn after_spawn(self, index: nat, handle: Option<u64>) -> (JobView, StepView) {
        match handle {
            Some(handle) => (JobView {
                processes: self.processes.insert(self.servers[index as int], handle),
                ..self
            }).run_servers(index + 1, Seq::empty()),
            None => self.run_servers(index + 1, seq![spawn_failed_line()]),
        }
    }

    /// The answer of the job to an event that it waits for: the job after
    /// it, the lines to log, and the next action.
    pub open spec fn step(self, event: EventView) -> (JobView, StepView) {
        match event {
            EventView::Wake => (
                JobView { phase: PhaseView::Scanning, ..self },
                StepView { log: Seq::empty(), action: ActionView::Scan(self.dir) },
            ),
            EventView::Scanned(walk) => self.after_scan(walk),
            EventView::ScriptEnded(outcome) => self.run_scripts(
                self.phase->Script_index + 1,
                report_lines(outcome),
            ),
            EventView::Killed(done) => self.after_kill(self.phase->Killing_index, done),
            EventView::Spawned(handle) => self.after_spawn(self.phase->Spawning_index, handle),
        }
    }

    /// Whether the job waits for each of `events` when its turn comes.
    pub open spec fn accepts_all(self, events: Seq<EventView>) -> bool
        decreases events.len(),
    {
        if events.len() == 0 {
            true
        } else {
            self.accepts(events.first()) && self.step(events.first()).0.accepts_all(
                events.drop_first(),
            )
        }
    }

    /// The job after it has answered each of `events` in turn.
    pub open spec fn after(self, events: Seq<EventView>) -> JobView
        decreases events.len(),
    {
        if events.len() == 0 {
            self
        } else {
            self.step(events.first()).0.after(events.drop_first())
        }
    }
}

} // verus!
