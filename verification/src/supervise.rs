//! Supervision of the servers: that a job never keeps more than one
//! process alive for a server command, and which it keeps.
use vstd::prelude::*;
use crate::cycle::{lemma_after_joined, lemma_after_one, lemma_every_script_runs, script_ends};
use crate::detect::changes_in_scan;
use crate::entry::FileSeen;
use crate::job::{JobView, PhaseView};
use crate::machine::{ActionView, EventView};
use crate::report::OutcomeView;

verus! {

/// The processes that the runtime has spawned for a job and that are still
/// alive: the command that each runs, by its handle.
pub type Table = Map<u64, Seq<char>>;

/// The action that a job waits to hear of, if any.
pub open spec fn pending(job: JobView) -> Option<ActionView> {
    match job.phase {
        PhaseView::Idle => None,
        PhaseView::Scanning => Some(ActionView::Scan(job.dir)),
        PhaseView::Script { index } => Some(ActionView::RunScript(job.scripts[index as int])),
        PhaseView::Killing { index } => Some(
            ActionView::Kill(job.processes[job.servers[index as int]]),
        ),
        PhaseView::Spawning { index } => Some(ActionView::Spawn(job.servers[index as int])),
        PhaseView::Sleeping => Some(ActionView::Sleep(job.delay)),
    }
}

/// The live processes once the runtime has performed `action` and reports
/// `event`: a terminated process is gone, a spawned one is there, and
/// nothing else changes.
pub open spec fn table_after(table: Table, action: Option<ActionView>, event: EventView) -> Table {
    match (action, event) {
        (Some(ActionView::Kill(handle)), EventView::Killed(true)) => table.remove(handle),
        (Some(ActionView::Spawn(command)), EventView::Spawned(Some(handle))) => table.insert(
            handle,
            command,
        ),
        _ => table,
    }
}

/// Whether `event` can be what comes of the action that the job waits to
/// hear of when all goes well: a process is terminated when that is asked
/// for, and a new process has a handle that no live process has.
pub open spec fn goes_well(table: Table, event: EventView) -> bool {
    match event {
        EventView::Killed(done) => done,
        EventView::Spawned(Some(handle)) => !table.contains_key(handle),
        _ => true,
    }
}

/// The handles of the live processes that run `command`.
pub open spec fn running(table: Table, command: Seq<char>) -> Set<u64> {
    Set::new(|handle: u64| table.contains_key(handle) && table[handle] == command)
}

/// Whether the job keeps track of exactly the live processes: each live
/// process runs the command under which the job holds its handle, and each
/// handle that the job holds is that of a live process that runs the command.
pub open spec fn supervises(job: JobView, table: Table) -> bool {
    &&& forall|handle: u64| #[trigger]
        table.contains_key(handle) ==> job.processes.contains_key(table[handle])
            && job.processes[table[handle]] == handle
    &&& forall|command: Seq<char>| #[trigger]
        job.processes.contains_key(command) ==> table.contains_key(job.processes[command])
            && table[job.processes[command]] == command
}

/// A job that keeps track of the live processes keeps no more than one
/// alive for a command: the one whose handle it holds, if it holds one.
pub proof fn lemma_at_most_one_process(job: JobView, table: Table, command: Seq<char>)
    requires
        supervises(job, table),
    ensures
        running(table, command) == if job.processes.contains_key(command) {
            set![job.processes[command]]
        } else {
            Set::empty()
        },
{
}

/// Every answer keeps a job well-formed, and the action that it gives is
/// the one that the job then waits to hear of.
pub proof fn lemma_step_keeps_wf(job: JobView, event: EventView)
    requires
        job.wf(),
        job.accepts(event),
    ensures
        job.step(event).0.wf(),
        pending(job.step(event).0) == Some(job.step(event).1.action),
{
}

/// Every answer keeps a job on track of the live processes, as long as all
/// goes well: so at no time are two processes alive for one command.
pub proof fn lemma_step_keeps_supervision(job: JobView, table: Table, event: EventView)
    requires
        job.wf(),
        job.accepts(event),
        supervises(job, table),
        goes_well(table, event),
    ensures
        supervises(job.step(event).0, table_after(table, pending(job), event)),
{
}

/// First start: when the turn of a server comes that has no process, one is
/// spawned for it at once, and once that is done it is the only live
/// process of the command and the job holds its handle. With the last
/// server served the job sleeps.
pub proof fn lemma_start_leaves_one_process(
    job: JobView,
    table: Table,
    index: nat,
    log: Seq<Seq<char>>,
    handle: u64,
)
    requires
        job.wf(),
        index < job.servers.len(),
        supervises(job, table),
        !job.processes.contains_key(job.servers[index as int]),
        !table.contains_key(handle),
    ensures
        ({
            let command = job.servers[index as int];
            let (begun, first) = job.run_servers(index, log);
            let done = begun.step(EventView::Spawned(Some(handle))).0;
            let alive = table.insert(handle, command);
            &&& first.action == ActionView::Spawn(command)
            &&& begun.accepts(EventView::Spawned(Some(handle)))
            &&& done.processes == job.processes.insert(command, handle)
            &&& running(alive, command) == set![handle]
            &&& supervises(done, alive)
            &&& index + 1 == job.servers.len() ==> done.phase == PhaseView::Sleeping
        }),
{
    let command = job.servers[index as int];
    let begun = job.run_servers(index, log).0;
    let done = begun.step(EventView::Spawned(Some(handle))).0;
    lemma_step_keeps_supervision(begun, table, EventView::Spawned(Some(handle)));
    lemma_at_most_one_process(done, table.insert(handle, command), command);
}

/// Restart: when the turn of a server comes that has a process, that
/// process is terminated first. Only when no process of the command is alive
/// any more is a new one spawned, and once that is done it is the only live
/// process of the command and the job holds its handle in place of the old
/// one. With the last server served the job sleeps.
pub proof fn lemma_restart_leaves_one_process(
    job: JobView,
    table: Table,
    index: nat,
    log: Seq<Seq<char>>,
    handle: u64,
)
    requires
        job.wf(),
        index < job.servers.len(),
        supervises(job, table),
        job.processes.contains_key(job.servers[index as int]),
        !table.remove(job.processes[job.servers[index as int]]).contains_key(handle),
    ensures
        ({
            let command = job.servers[index as int];
            let former = job.processes[command];
            let (begun, first) = job.run_servers(index, log);
            let (ready, second) = begun.step(EventView::Killed(true));
            let done = ready.step(EventView::Spawned(Some(handle))).0;
            let cleared = table.remove(former);
            let alive = cleared.insert(handle, command);
            &&& first.action == ActionView::Kill(former)
            &&& begun.accepts(EventView::Killed(true))
            &&& second.action == ActionView::Spawn(command)
            &&& ready.accepts(EventView::Spawned(Some(handle)))
            &&& running(cleared, command) == Set::<u64>::empty()
            &&& done.processes == job.processes.insert(command, handle)
            &&& running(alive, command) == set![handle]
            &&& supervises(done, alive)
            &&& index + 1 == job.servers.len() ==> done.phase == PhaseView::Sleeping
        }),
{
    let command = job.servers[index as int];
    let begun = job.run_servers(index, log).0;
    let ready = begun.step(EventView::Killed(true)).0;
    let done = ready.step(EventView::Spawned(Some(handle))).0;
    let cleared = table.remove(job.processes[command]);
    let alive = cleared.insert(handle, command);
    lemma_step_keeps_supervision(begun, table, EventView::Killed(true));
    lemma_at_most_one_process(ready, cleared, command);
    lemma_step_keeps_supervision(ready, cleared, EventView::Spawned(Some(handle)));
    lemma_at_most_one_process(done, alive, command);
}

/// The events of one cycle of a job with one server, in which the walk
/// shows a change and all goes well: the wake, the walk, the end of each
/// script, the end of the old process if there is one, and the start of the
/// new one.
pub open spec fn restart_cycle(
    job: JobView,
    walk: Seq<Option<FileSeen>>,
    outcomes: Seq<OutcomeView>,
    handle: u64,
) -> Seq<EventView> {
    seq![EventView::Wake, EventView::Scanned(walk)] + script_ends(outcomes) + (
    if job.processes.contains_key(
        job.servers[0],
    ) {
        seq![EventView::Killed(true)]
    } else {
        Seq::empty()
    }) + seq![EventView::Spawned(Some(handle))]
}

/// The live processes before the new process of the one server of a job
/// is spawned: the old one, if there was one, is gone.
pub open spec fn cleared(job: JobView, table: Table) -> Table {
    if job.processes.contains_key(job.servers[0]) {
        table.remove(job.processes[job.servers[0]])
    } else {
        table
    }
}

/// A cycle with a change leaves one process: a job with one server that
/// wakes and finds a change goes through its scripts, terminates the process
/// of the server if there is one, spawns a new one, and sleeps. The new
/// process is then the only live one of the command, and the job holds its
/// handle. As the job sleeps again and still keeps track of the live
/// processes, the same holds of the cycle after it, and of every later one.
pub proof fn lemma_cycle_leaves_one_process(
    job: JobView,
    table: Table,
    walk: Seq<Option<FileSeen>>,
    outcomes: Seq<OutcomeView>,
    handle: u64,
)
    requires
        job.wf(),
        job.phase is Idle || job.phase is Sleeping,
        job.servers.len() == 1,
        supervises(job, table),
        changes_in_scan(job.filetypes, job.history, walk) > 0,
        outcomes.len() == job.scripts.len(),
        !cleared(job, table).contains_key(handle),
    ensures
        ({
            let command = job.servers[0];
            let events = restart_cycle(job, walk, outcomes, handle);
            let alive = cleared(job, table).insert(handle, command);
            &&& job.accepts_all(events)
            &&& job.after(events).phase == PhaseView::Sleeping
            &&& job.after(events).processes == job.processes.insert(command, handle)
            &&& running(cleared(job, table), command) == Set::<u64>::empty()
            &&& running(alive, command) == set![handle]
            &&& supervises(job.after(events), alive)
        }),
{
    let command = job.servers[0];
    let scan = seq![EventView::Wake, EventView::Scanned(walk)];
    let scripts = script_ends(outcomes);
    let kill = if job.processes.contains_key(command) {
        seq![EventView::Killed(true)]
    } else {
        Seq::empty()
    };
    let spawn = seq![EventView::Spawned(Some(handle))];
    let woken = job.step(EventView::Wake).0;
    let scanned = woken.step(EventView::Scanned(walk)).0;
    lemma_after_one(job, EventView::Wake);
    lemma_after_one(woken, EventView::Scanned(walk));
    lemma_after_joined(job, seq![EventView::Wake], seq![EventView::Scanned(walk)]);
    assert(scan =~= seq![EventView::Wake] + seq![EventView::Scanned(walk)]);
    if job.scripts.len() > 0 {
        lemma_every_script_runs(scanned, outcomes);
    }
    let due = JobView { phase: PhaseView::Sleeping, ..scanned };
    let begun = due.run_servers(0, Seq::empty()).0;
    lemma_after_joined(job, scan, scripts);
    let ready = begun.after(kill);
    if job.processes.contains_key(command) {
        lemma_restart_leaves_one_process(due, table, 0, Seq::empty(), handle);
        lemma_after_one(begun, EventView::Killed(true));
    } else {
        lemma_start_leaves_one_process(due, table, 0, Seq::empty(), handle);
    }
    lemma_after_joined(job, scan + scripts, kill);
    lemma_after_one(ready, EventView::Spawned(Some(handle)));
    lemma_after_joined(job, scan + scripts + kill, spawn);
}

} // verus!
