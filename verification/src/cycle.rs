//! What holds of a run of events: that answers can be taken one by one or
//! in runs, that a cycle without a change runs nothing, and that every
//! script of a job has its turn in one with a change.
use vstd::prelude::*;
use crate::detect::{changes_in_scan, history_after_scan};
use crate::entry::FileSeen;
use crate::job::{JobView, PhaseView};
use crate::machine::{ActionView, EventView, StepView};
use crate::report::OutcomeView;

verus! {

/// The events that tell of the ends of scripts with these outcomes.
pub open spec fn script_ends(outcomes: Seq<OutcomeView>) -> Seq<EventView> {
    outcomes.map_values(|outcome: OutcomeView| EventView::ScriptEnded(outcome))
}

/// A run of one event is one answer.
pub proof fn lemma_after_one(job: JobView, event: EventView)
    ensures
        job.after(seq![event]) == job.step(event).0,
        job.accepts_all(seq![event]) == job.accepts(event),
{
    let run = seq![event];
    let next = job.step(event).0;
    assert(next.after(run.drop_first()) == next);
    assert(next.accepts_all(run.drop_first()));
}

/// To answer `front` and then `back` is to answer the two in one run.
pub proof fn lemma_after_joined(job: JobView, front: Seq<EventView>, back: Seq<EventView>)
    ensures
        job.after(front + back) == job.after(front).after(back),
        job.accepts_all(front + back) == (job.accepts_all(front) && job.after(front).accepts_all(
            back,
        )),
    decreases front.len(),
{
    if front.len() > 0 {
        assert((front + back).drop_first() =~= front.drop_first() + back);
        lemma_after_joined(job.step(front.first()).0, front.drop_first(), back);
    }
}

/// Every script has its turn: from a script on, each of the scripts after
/// it runs when the one before it has ended, whatever came of that one, and
/// when the last has ended the servers are taken up, from the first.
pub proof fn lemma_every_script_runs(job: JobView, outcomes: Seq<OutcomeView>)
    requires
        job.wf(),
        job.phase is Script,
        job.phase->Script_index + outcomes.len() == job.scripts.len(),
    ensures
        job.accepts_all(script_ends(outcomes)),
        forall|k: int|
            0 <= k < outcomes.len() ==> (#[trigger] job.after(
                script_ends(outcomes.take(k)),
            )).phase == (PhaseView::Script { index: (job.phase->Script_index + k) as nat }),
        job.after(script_ends(outcomes)) == job.run_servers(0, Seq::empty()).0,
    decreases outcomes.len(),
{
    let index = job.phase->Script_index;
    let events = script_ends(outcomes);
    let next = job.step(events.first()).0;
    let rest = outcomes.drop_first();
    assert(events.drop_first() =~= script_ends(rest));
    if index + 1 < job.scripts.len() {
        lemma_every_script_runs(next, rest);
    } else {
        assert(next.accepts_all(script_ends(rest)));
    }
    assert forall|k: int| 0 <= k < outcomes.len() implies (#[trigger] job.after(
        script_ends(outcomes.take(k)),
    )).phase == (PhaseView::Script { index: (index + k) as nat }) by {
        if k > 0 {
            assert(script_ends(outcomes.take(k)).drop_first() =~= script_ends(rest.take(k - 1)));
            assert(next.after(script_ends(rest.take(k - 1))).phase == (PhaseView::Script {
                index: (index + 1 + (k - 1)) as nat,
            }));
        }
    }
}

/// A cycle without a change runs nothing: the job wakes, has the
/// directory walked, takes the walk into its history, and sleeps for its
/// delay. No script runs, no process is touched, and nothing is logged.
pub proof fn lemma_quiet_cycle_runs_nothing(job: JobView, walk: Seq<Option<FileSeen>>)
    requires
        job.phase is Idle || job.phase is Sleeping,
        changes_in_scan(job.filetypes, job.history, walk) == 0,
    ensures
        ({
            let (woken, first) = job.step(EventView::Wake);
            let (slept, second) = woken.step(EventView::Scanned(walk));
            &&& first == (StepView { log: Seq::empty(), action: ActionView::Scan(job.dir) })
            &&& woken.accepts(EventView::Scanned(walk))
            &&& second == (StepView { log: Seq::empty(), action: ActionView::Sleep(job.delay) })
            &&& slept == (JobView {
                phase: PhaseView::Sleeping,
                history: history_after_scan(job.filetypes, job.history, walk),
                ..job
            })
        }),
{
}

} // verus!
