//! The table of runs behind the start / poll / status / result calls.

use crate::agents::{Report, Run, RunBrief};
use crate::domain::PantherError;
use crate::events::{events_from, replay, AgentEvent, AgentOutcome, EventModel, OutcomeModel, event_models};
use crate::retry::{Action, RunStatus};
use vstd::prelude::*;

verus! {

/// What one poll of a run returns.
#[derive(Debug)]
pub struct PollResult {
    /// The events appended since the cursor that was given.
    pub events: Vec<AgentEvent>,
    /// Whether the run has ended.
    pub done: bool,
    /// The cursor to poll with next.
    pub cursor: usize,
    pub status: RunStatus,
}

/// The runs of one orchestrator, each under the id that `start` gave it.
/// A slot is empty once its run has been evicted.
pub struct JobTable {
    runs: Vec<Option<Run>>,
}

/// The events of a trail from `cursor` on; none where the cursor lies
/// at or behind the end.
pub open spec fn events_since(trail: Seq<EventModel>, cursor: usize) -> Seq<EventModel> {
    if cursor <= trail.len() {
        trail.subrange(cursor as int, trail.len() as int)
    } else {
        Seq::empty()
    }
}

/// The cursor after a poll: the end of the trail, or the cursor given
/// where that already lies behind the end.
pub open spec fn cursor_after(trail: Seq<EventModel>, cursor: usize) -> usize {
    if cursor <= trail.len() {
        trail.len() as usize
    } else {
        cursor
    }
}

impl View for JobTable {
    type V = Seq<Option<Run>>;

    closed spec fn view(&self) -> Seq<Option<Run>> {
        self.runs@
    }
}

/// Every run among the slots is well formed.
pub open spec fn all_wf(slots: Seq<Option<Run>>) -> bool {
    forall|i: int| 0 <= i < slots.len() && (#[trigger] slots[i]).is_some() ==> slots[i]->Some_0.wf()
}

impl JobTable {
    /// Every run of the table is well formed, at all times.
    #[verifier::type_invariant]
    spec fn runs_wf(self) -> bool {
        all_wf(self.runs@)
    }

    /// Takes the slots out of the table, leaving it without runs.
    fn take_slots(&mut self) -> (slots: Vec<Option<Run>>)
        ensures
            slots@ == old(self)@,
            all_wf(slots@),
            final(self)@.len() == 0,
    {
        proof {
            use_type_invariant(&*self);
        }
        let mut taken = JobTable { runs: Vec::new() };
        core::mem::swap(self, &mut taken);
        taken.runs
    }

    /// Puts slots into a table that holds none.
    fn put_slots(&mut self, slots: Vec<Option<Run>>)
        requires
            all_wf(slots@),
        ensures
            final(self)@ == slots@,
    {
        let mut filled = JobTable { runs: slots };
        core::mem::swap(self, &mut filled);
    }

    /// Whether the table holds a run under `run_id`.
    pub open spec fn holds(self, run_id: usize) -> bool {
        run_id < self@.len() && self@[run_id as int].is_some()
    }

    /// The run under `run_id`.
    pub open spec fn run(self, run_id: usize) -> Run
        recommends
            self.holds(run_id),
    {
        self@[run_id as int]->Some_0
    }

    /// A table without runs.
    pub fn new() -> (t: JobTable)
        ensures
            t@.len() == 0,
    {
        JobTable { runs: Vec::new() }
    }

    /// Takes a run into the table and returns its id.
    pub fn start(&mut self, run: Run) -> (run_id: usize)
        requires
            run.wf(),
        ensures
            run_id == old(self)@.len(),
            final(self)@ == old(self)@.push(Some(run)),
    {
        let mut slots = self.take_slots();
        let run_id = slots.len();
        slots.push(Some(run));
        self.put_slots(slots);
        run_id
    }

    fn unknown() -> (e: PantherError)
        ensures
            e is InvalidInput,
            e.spec_detail()@ == "unknown run"@,
    {
        PantherError::InvalidInput("unknown run".to_owned())
    }

    /// The events of a run from `cursor` on, with the run's status.
    ///
    /// Fails only where the table holds no run under `run_id`.
    pub fn poll(&self, run_id: usize, cursor: usize) -> (r: Result<PollResult, PantherError>)
        ensures
            r is Ok <==> self.holds(run_id),
            r is Err ==> r->Err_0 is InvalidInput,
            r is Ok ==> {
                let run = self.run(run_id);
                let p = r->Ok_0;
                &&& event_models(p.events@) == events_since(run.trail(), cursor)
                &&& p.cursor == cursor_after(run.trail(), cursor)
                &&& p.status == run.control.phase.spec_status()
                &&& p.done == run.control.phase.is_terminal()
            },
    {
        if run_id >= self.runs.len() {
            return Err(Self::unknown());
        }
        match &self.runs[run_id] {
            None => Err(Self::unknown()),
            Some(run) => {
                let events = events_from(&run.events, cursor);
                let (status, done) = run.status();
                let next = if cursor <= run.events.len() {
                    run.events.len()
                } else {
                    cursor
                };
                Ok(PollResult { events, done, cursor: next, status })
            },
        }
    }

    /// The status of a run and whether it has ended.
    ///
    /// Fails only where the table holds no run under `run_id`.
    pub fn status(&self, run_id: usize) -> (r: Result<(RunStatus, bool), PantherError>)
        ensures
            r is Ok <==> self.holds(run_id),
            r is Err ==> r->Err_0 is InvalidInput,
            r is Ok ==> r->Ok_0.0 == self.run(run_id).control.phase.spec_status() && r->Ok_0.1
                == self.run(run_id).control.phase.is_terminal(),
    {
        if run_id >= self.runs.len() {
            return Err(Self::unknown());
        }
        match &self.runs[run_id] {
            None => Err(Self::unknown()),
            Some(run) => Ok(run.status()),
        }
    }

    /// The outcome of a run once it has ended; `None` while it is running.
    ///
    /// Fails only where the table holds no run under `run_id`.
    pub fn result(&self, run_id: usize) -> (r: Result<Option<AgentOutcome>, PantherError>)
        ensures
            r is Ok <==> self.holds(run_id),
            r is Err ==> r->Err_0 is InvalidInput,
            r is Ok ==> {
                let run = self.run(run_id);
                &&& r->Ok_0.is_some() == run.control.phase.is_terminal()
                &&& r->Ok_0.is_some() ==> r->Ok_0->Some_0@ == replay(run.trail())
            },
    {
        if run_id >= self.runs.len() {
            return Err(Self::unknown());
        }
        match &self.runs[run_id] {
            None => Err(Self::unknown()),
            Some(run) => Ok(run.result()),
        }
    }

    /// The action that a run asks for next; `None` where the table holds
    /// no run under `run_id`.
    pub fn next_action(&self, run_id: usize) -> (a: Option<Action>)
        ensures
            a.is_some() == self.holds(run_id),
            a.is_some() ==> a->Some_0 == self.run(run_id).control.spec_next_action(
                self.run(run_id).limits,
            ),
    {
        if run_id >= self.runs.len() {
            return None;
        }
        match &self.runs[run_id] {
            None => None,
            Some(run) => Some(run.next_action()),
        }
    }

    /// The next action of a run with the inputs that performing it
    /// takes; `None` where the table holds no run under `run_id`.
    pub fn brief(&self, run_id: usize) -> (b: Option<RunBrief>)
        ensures
            b.is_some() == self.holds(run_id),
            b.is_some() ==> {
                let run = self.run(run_id);
                &&& b->Some_0.action == run.control.spec_next_action(run.limits)
                &&& b->Some_0.prompt == run.prompt
                &&& b->Some_0.guidelines_json == run.guidelines_json
                &&& b->Some_0.combined_hash == run.combined_hash
            },
    {
        if run_id >= self.runs.len() {
            return None;
        }
        match &self.runs[run_id] {
            None => None,
            Some(run) => Some(run.brief()),
        }
    }

    /// Hands a report to a run. Returns whether the run took it; a
    /// report for a run that the table does not hold, or one that does not
    /// fit the run's state, changes nothing.
    pub fn report(&mut self, run_id: usize, report: Report, ts: i64) -> (accepted: bool)
        ensures
            accepted == (old(self).holds(run_id) && old(self).run(run_id).accepts(report)),
            !accepted ==> final(self)@ == old(self)@,
            accepted ==> {
                &&& final(self)@.len() == old(self)@.len()
                &&& final(self).holds(run_id)
                &&& old(self).run(run_id).reported(report, ts, final(self).run(run_id))
                &&& forall|i: int|
                    0 <= i < old(self)@.len() && i != run_id ==> final(self)@[i] == old(self)@[i]
            },
    {
        if run_id >= self.runs.len() {
            return false;
        }
        let mut slots = self.take_slots();
        let ghost before = slots@;
        let slot = slots.remove(run_id);
        let accepted = match slot {
            None => {
                slots.insert(run_id, None);
                false
            },
            Some(mut run) => {
                let accepted = run.report(report, ts);
                slots.insert(run_id, Some(run));
                accepted
            },
        };
        proof {
            if !accepted {
                assert(slots@ =~= before);
            }
            assert forall|i: int| 0 <= i < slots@.len() && (#[trigger] slots@[i]).is_some() implies slots@[i]->Some_0.wf() by {
                if i != run_id {
                    assert(slots@[i] == before[i]);
                }
            }
        }
        self.put_slots(slots);
        accepted
    }

    /// Removes a run that has ended, after its result has been fetched.
    /// A run that is still running stays. Returns whether a run was removed.
    pub fn evict(&mut self, run_id: usize) -> (removed: bool)
        ensures
            removed == (old(self).holds(run_id) && old(self).run(run_id).control.phase.is_terminal()),
            !removed ==> final(self)@ == old(self)@,
            removed ==> final(self)@ == old(self)@.update(run_id as int, None),
    {
        if run_id >= self.runs.len() {
            return false;
        }
        let mut slots = self.take_slots();
        let ghost before = slots@;
        let slot = slots.remove(run_id);
        let removed = match slot {
            Some(run) => {
                let (_, done) = run.status();
                if done {
                    slots.insert(run_id, None);
                    true
                } else {
                    slots.insert(run_id, Some(run));
                    false
                }
            },
            None => {
                slots.insert(run_id, None);
                false
            },
        };
        proof {
            if removed {
                assert(slots@ =~= before.update(run_id as int, None));
            } else {
                assert(slots@ =~= before);
            }
        }
        self.put_slots(slots);
        removed
    }
}

/// Replaying what polls return gives the outcome that `result` returns:
/// whether a reader fetches the trail at once from cursor zero, or up to
/// any position first and the rest with the cursor it was handed.
pub proof fn lemma_replay_equivalence(trail: Seq<EventModel>, first: Seq<EventModel>)
    requires
        first.is_prefix_of(trail),
        trail.len() <= usize::MAX,
    ensures
        replay(events_since(trail, 0)) == replay(trail),
        events_since(first, 0) == first,
        cursor_after(first, 0) == first.len(),
        replay(first + events_since(trail, cursor_after(first, 0))) == replay(trail),
{
    assert(events_since(trail, 0) =~= trail);
    assert(events_since(first, 0) =~= first);
    assert(first + events_since(trail, cursor_after(first, 0)) =~= trail);
}

/// Polling never moves a cursor back, and polling again with the cursor
/// that a poll handed out returns nothing while the trail has not grown.
pub proof fn lemma_cursor_advances(trail: Seq<EventModel>, cursor: usize)
    requires
        trail.len() <= usize::MAX,
    ensures
        cursor_after(trail, cursor) >= cursor,
        events_since(trail, cursor_after(trail, cursor)).len() == 0,
        cursor_after(trail, cursor_after(trail, cursor)) == cursor_after(trail, cursor),
{
}

} // verus!
