//! A job: one watched directory, what to run when it changes, and the state
//! that is kept from one poll to the next.
use vstd::prelude::*;
use vstd::hash_map::StringHashMap;
use crate::config::JobConfig;
use crate::detect::{
    History, changes_in_scan, history_after_scan, is_watched, lemma_one_more_item,
    lemma_one_more_sighting, sighting, sightings,
};
use crate::entry::FileEntry;
use crate::machine::{Action, Event, Step};
use crate::report::{announce_restart, announce_script, report_script};

verus! {

/// Where a job stands in its poll cycle.
#[derive(Clone, Copy, Debug, PartialEq, Eq, Structural)]
pub enum Phase {
    /// Nothing is under way: the job has not polled yet.
    Idle,
    /// A walk of the directory is under way.
    Scanning,
    /// A change was found, and the script at `index` is running.
    Script { index: usize },
    /// A change was found, and the process of the server at `index` is being terminated.
    Killing { index: usize },
    /// A change was found, and a process for the server at `index` is being spawned.
    Spawning { index: usize },
    /// The delay before the next poll is running.
    Sleeping,
}

/// A [`Phase`], as mathematical values.
pub enum PhaseView {
    Idle,
    Scanning,
    Script { index: nat },
    Killing { index: nat },
    Spawning { index: nat },
    Sleeping,
}

impl View for Phase {
    type V = PhaseView;

    open spec fn view(&self) -> PhaseView {
        match self {
            Phase::Idle => PhaseView::Idle,
            Phase::Scanning => PhaseView::Scanning,
            Phase::Script { index } => PhaseView::Script { index: *index as nat },
            Phase::Killing { index } => PhaseView::Killing { index: *index as nat },
            Phase::Spawning { index } => PhaseView::Spawning { index: *index as nat },
            Phase::Sleeping => PhaseView::Sleeping,
        }
    }
}

/// A job, as mathematical values.
#[verifier::ext_equal]
pub struct JobView {
    /// The watched directory.
    pub dir: Seq<char>,
    /// The watched extensions, if the job is limited to some.
    pub filetypes: Option<Seq<Seq<char>>>,
    /// The commands run to completion after each change, in order.
    pub scripts: Seq<Seq<char>>,
    /// The commands kept running, and restarted after each change, in order.
    pub servers: Seq<Seq<char>>,
    /// Seconds between two polls.
    pub delay: u64,
    /// The handle of the process running for a server command.
    pub processes: Map<Seq<char>, u64>,
    /// The modification time last seen of a path.
    pub history: History,
    /// Where the job stands in its cycle.
    pub phase: PhaseView,
}

impl JobView {
    /// What holds of every job: a phase that works on a script or a server
    /// names one that is configured; a server whose process is being
    /// terminated has a process, and one for which a process is being spawned
    /// has none.
    pub open spec fn wf(self) -> bool {
        match self.phase {
            PhaseView::Script { index } => index < self.scripts.len(),
            PhaseView::Killing { index } => index < self.servers.len()
                && self.processes.contains_key(self.servers[index as int]),
            PhaseView::Spawning { index } => index < self.servers.len()
                && !self.processes.contains_key(self.servers[index as int]),
            _ => true,
        }
    }
}

/// One configured directory watch, with the state of its cycle.
pub struct Job {
    dir: String,
    filetypes: Option<Vec<String>>,
    scripts: Vec<String>,
    servers: Vec<String>,
    delay: u64,
    processes: StringHashMap<u64>,
    history: StringHashMap<i128>,
    phase: Phase,
}

impl View for Job {
    type V = JobView;

    closed spec fn view(&self) -> JobView {
        JobView {
            dir: self.dir@,
            filetypes: self.filetypes.deep_view(),
            scripts: self.scripts.deep_view(),
            servers: self.servers.deep_view(),
            delay: self.delay,
            processes: self.processes@,
            history: self.history@,
            phase: self.phase@,
        }
    }
}

impl Job {
    #[verifier::type_invariant]
    spec fn inv(self) -> bool {
        self@.wf()
    }

    /// A job as `cfg` describes it, which has seen no file and runs no
    /// process yet. Scripts and servers that are left out are none, and a
    /// delay that is left out is the default.
    pub fn from_config(cfg: JobConfig) -> (job: Job)
        ensures
            job@ == (JobView {
                dir: cfg@.dir,
                filetypes: cfg@.filetypes,
                scripts: cfg@.scripts_or_none(),
                servers: cfg@.servers_or_none(),
                delay: cfg@.delay_or_default(),
                processes: Map::empty(),
                history: Map::empty(),
                phase: PhaseView::Idle,
            }),
            job@.wf(),
    {
        let scripts = match cfg.scripts {
            Some(list) => list,
            None => Vec::new(),
        };
        let servers = match cfg.servers {
            Some(list) => list,
            None => Vec::new(),
        };
        let delay = match cfg.delay {
            Some(seconds) => seconds,
            None => crate::config::DEFAULT_DELAY,
        };
        Job {
            dir: cfg.dir,
            filetypes: cfg.filetypes,
            scripts,
            servers,
            delay,
            processes: StringHashMap::new(),
            history: StringHashMap::new(),
            phase: Phase::Idle,
        }
    }

    /// Takes in a walk of the directory: records the modification time of
    /// every watched file that the walk could read, and tells whether any of
    /// them is new or has another time than at its last sighting.
    pub fn updated(&mut self, walk: &Vec<Option<FileEntry>>) -> (changed: bool)
        ensures
            final(self)@ == (JobView {
                history: history_after_scan(
                    old(self)@.filetypes,
                    old(self)@.history,
                    walk.deep_view(),
                ),
                ..old(self)@
            }),
            changed == (changes_in_scan(
                old(self)@.filetypes,
                old(self)@.history,
                walk.deep_view(),
            ) > 0),
            final(self)@.wf(),
    {
        proof {
            use_type_invariant(&*self);
        }
        let ghost before = self@;
        let ghost items = walk.deep_view();
        let mut history = StringHashMap::new();
        std::mem::swap(&mut history, &mut self.history);
        let mut changed = false;
        let mut index: usize = 0;
        while index < walk.len()
            invariant
                index <= walk.len(),
                items == walk.deep_view(),
                self.filetypes.deep_view() == before.filetypes,
                history@ == history_after_scan(
                    before.filetypes,
                    before.history,
                    items.take(index as int),
                ),
                changed == (changes_in_scan(
                    before.filetypes,
                    before.history,
                    items.take(index as int),
                ) > 0),
            decreases walk.len() - index,
        {
            proof {
                let seen = sightings(before.filetypes, items.take(index as int));
                lemma_one_more_item(before.filetypes, items, index as int);
                if let Some(next) = sighting(before.filetypes, items[index as int]) {
                    lemma_one_more_sighting(before.history, seen, next);
                }
            }
            match &walk[index] {
                Some(file) => {
                    if is_watched(&self.filetypes, &file.extension) {
                        match file.modified {
                            Some(modified) => {
                                let differs = match history.get(file.path.as_str()) {
                                    Some(last) => *last != modified,
                                    None => true,
                                };
                                history.insert(file.path.clone(), modified);
                                if differs {
                                    changed = true;
                                }
                            },
                            None => {},
                        }
                    }
                },
                None => {},
            }
            index += 1;
        }
        proof {
            assert(items.take(index as int) == items);
        }
        self.history = history;
        changed
    }

    /// Ends the cycle: the job sleeps for its delay.
    fn sleep(&mut self, log: Vec<String>) -> (step: Step)
        ensures
            (final(self)@, step@) == old(self)@.sleep(log.deep_view()),
    {
        self.phase = Phase::Sleeping;
        Step { log, action: Action::Sleep(self.delay) }
    }

    /// Takes up the servers from the one at `index` on: the first of them
    /// has its process terminated if it has one, and gets a process at once
    /// if it has none. With no server left the job sleeps.
    fn run_servers(&mut self, index: usize, log: Vec<String>) -> (step: Step)
        requires
            index <= old(self)@.servers.len(),
        ensures
            (final(self)@, step@) == old(self)@.run_servers(index as nat, log.deep_view()),
    {
        if index < self.servers.len() {
            let command = self.servers[index].clone();
            match self.process(command.as_str()) {
                Some(handle) => {
                    self.phase = Phase::Killing { index };
                    Step { log, action: Action::Kill(handle) }
                },
                None => {
                    self.phase = Phase::Spawning { index };
                    let mut log = log;
                    log.push(announce_restart(command.as_str()));
                    Step { log, action: Action::Spawn(command) }
                },
            }
        } else {
            self.sleep(log)
        }
    }

    /// Takes up the scripts from the one at `index` on: the first of them is
    /// run. With no script left the servers are taken up, from the first.
    fn run_scripts(&mut self, index: usize, log: Vec<String>) -> (step: Step)
        requires
            index <= old(self)@.scripts.len(),
        ensures
            (final(self)@, step@) == old(self)@.run_scripts(index as nat, log.deep_view()),
    {
        if index < self.scripts.len() {
            let command = self.scripts[index].clone();
            self.phase = Phase::Script { index };
            let mut log = log;
            log.push(announce_script(command.as_str()));
            Step { log, action: Action::RunScript(command) }
        } else {
            self.run_servers(0, log)
        }
    }

    /// Gives up the handle of the server at `index` after the attempt to
    /// terminate its process, and has a new process spawned for it.
    fn restart(&mut self, index: usize, done: bool) -> (step: Step)
        requires
            old(self)@.phase == (PhaseView::Killing { index: index as nat }),
        ensures
            (final(self)@, step@) == old(self)@.after_kill(index as nat, done),
    {
        proof {
            use_type_invariant(&*self);
        }
        let command = self.servers[index].clone();
        // While the table is out of the job, the job is in a phase that
        // says nothing of the table.
        self.phase = Phase::Idle;
        let mut processes = StringHashMap::new();
        std::mem::swap(&mut processes, &mut self.processes);
        processes.remove(command.as_str());
        self.processes = processes;
        self.phase = Phase::Spawning { index };
        let mut log: Vec<String> = Vec::new();
        if !done {
            log.push("failed to kill child".to_owned());
        }
        log.push(announce_restart(command.as_str()));
        Step { log, action: Action::Spawn(command) }
    }

    /// Keeps the handle of the process spawned for the server at `index`, or
    /// notes that there is none, and takes up the next server.
    fn spawned(&mut self, index: usize, handle: Option<u64>) -> (step: Step)
        requires
            old(self)@.phase == (PhaseView::Spawning { index: index as nat }),
        ensures
            (final(self)@, step@) == old(self)@.after_spawn(index as nat, handle),
    {
        proof {
            use_type_invariant(&*self);
        }
        assert(index < self.servers.len());
        let mut log: Vec<String> = Vec::new();
        match handle {
            Some(handle) => {
                let command = self.servers[index].clone();
                // As in `restart`: no phase that speaks of the table
                // while the table is out of the job.
                self.phase = Phase::Idle;
                let mut processes = StringHashMap::new();
                std::mem::swap(&mut processes, &mut self.processes);
                processes.insert(command, handle);
                self.processes = processes;
            },
            None => {
                log.push("failed to spawn process".to_owned());
            },
        }
        self.run_servers(index + 1, log)
    }

    /// Answers an event of the runtime with the lines to log and the next
    /// action, and moves the job on in its cycle: walk, then scripts and
    /// servers if the walk found a change, then sleep. An event that the job
    /// does not wait for in its phase is refused, and changes nothing.
    pub fn watch(&mut self, event: Event) -> (answer: Option<Step>)
        ensures
            old(self)@.accepts(event@) ==> answer is Some && (final(self)@, answer->0@) == old(
                self,
            )@.step(event@),
            !old(self)@.accepts(event@) ==> answer is None && final(self)@ == old(self)@,
            final(self)@.wf(),
    {
        proof {
            use_type_invariant(&*self);
        }
        match event {
            Event::Wake => match self.phase {
                Phase::Idle | Phase::Sleeping => {
                    self.phase = Phase::Scanning;
                    Some(Step { log: Vec::new(), action: Action::Scan(self.dir.clone()) })
                },
                _ => None,
            },
            Event::Scanned(walk) => match self.phase {
                Phase::Scanning => {
                    if self.updated(&walk) {
                        Some(self.run_scripts(0, Vec::new()))
                    } else {
                        Some(self.sleep(Vec::new()))
                    }
                },
                _ => None,
            },
            Event::ScriptEnded(outcome) => match self.phase {
                Phase::Script { index } => {
                    assert(index < self.scripts.len());
                    let log = report_script(&outcome);
                    Some(self.run_scripts(index + 1, log))
                },
                _ => None,
            },
            Event::Killed(done) => match self.phase {
                Phase::Killing { index } => Some(self.restart(index, done)),
                _ => None,
            },
            Event::Spawned(handle) => match self.phase {
                Phase::Spawning { index } => Some(self.spawned(index, handle)),
                _ => None,
            },
        }
    }

    /// Where the job stands in its cycle.
    pub fn phase(&self) -> (phase: Phase)
        ensures
            phase@ == self@.phase,
    {
        self.phase
    }

    /// The modification time last seen of the file at `path`, if the job
    /// has seen it.
    pub fn last_modified(&self, path: &str) -> (seen: Option<i128>)
        ensures
            seen == if self@.history.contains_key(path@) {
                Some(self@.history[path@])
            } else {
                None
            },
    {
        match self.history.get(path) {
            Some(modified) => Some(*modified),
            None => None,
        }
    }

    /// The handle of the process that runs for the server `command`, if
    /// the job holds one.
    pub fn process(&self, command: &str) -> (running: Option<u64>)
        ensures
            running == if self@.processes.contains_key(command@) {
                Some(self@.processes[command@])
            } else {
                None
            },
    {
        match self.processes.get(command) {
            Some(handle) => Some(*handle),
            None => None,
        }
    }
}

} // verus!
