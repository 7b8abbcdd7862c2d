//! The append-only event trail of a run and what it says of the outcome.

use crate::attestation::Proof;
use crate::validation::{duplicate_results, result_models, ResultModel, ValidationResult};
use vstd::prelude::*;

verus! {

/// What an event carries besides its message.
#[derive(Debug)]
pub enum EventData {
    /// The ranked results of the validate stage.
    Results(Vec<ValidationResult>),
    /// The attestation computed by the seal stage.
    Sealed(Proof),
    /// The transaction that submitted the hash to the ledger.
    Anchor { tx_hash: String },
    /// Whether the ledger was seen to hold the hash.
    Status { anchored: bool },
}

/// One entry of a run's trail.
#[derive(Debug)]
pub struct AgentEvent {
    pub ts: i64,
    pub stage: String,
    pub message: String,
    pub data: Option<EventData>,
}

/// What a run has produced so far. A field is `None` while its stage has
/// not completed, and stays so where the stage is skipped.
#[derive(Debug)]
pub struct AgentOutcome {
    pub results: Option<Vec<ValidationResult>>,
    pub proof: Option<Proof>,
    pub tx_hash: Option<String>,
    pub anchored: Option<bool>,
}

/// The outcome of a run together with its whole trail.
#[derive(Debug)]
pub struct AgentRunResult {
    pub outcome: AgentOutcome,
    pub events: Vec<AgentEvent>,
}

/// The mathematical value of an [`EventData`].
pub enum DataModel {
    Results(Seq<ResultModel>),
    Sealed(Proof),
    Anchor { tx_hash: Seq<char> },
    Status { anchored: bool },
}

/// The mathematical value of an [`AgentEvent`].
pub struct EventModel {
    pub ts: i64,
    pub stage: Seq<char>,
    pub message: Seq<char>,
    pub data: Option<DataModel>,
}

/// The mathematical value of an [`AgentOutcome`].
pub struct OutcomeModel {
    pub results: Option<Seq<ResultModel>>,
    pub proof: Option<Proof>,
    pub tx_hash: Option<Seq<char>>,
    pub anchored: Option<bool>,
}

impl View for EventData {
    type V = DataModel;

    open spec fn view(&self) -> DataModel {
        match *self {
            EventData::Results(r) => DataModel::Results(result_models(r@)),
            EventData::Sealed(p) => DataModel::Sealed(p),
            EventData::Anchor { tx_hash } => DataModel::Anchor { tx_hash: tx_hash@ },
            EventData::Status { anchored } => DataModel::Status { anchored },
        }
    }
}

/// The value of an optional payload.
pub open spec fn data_model(d: Option<EventData>) -> Option<DataModel> {
    match d {
        Some(x) => Some(x@),
        None => None,
    }
}

impl View for AgentEvent {
    type V = EventModel;

    open spec fn view(&self) -> EventModel {
        EventModel {
            ts: self.ts,
            stage: self.stage@,
            message: self.message@,
            data: data_model(self.data),
        }
    }
}

impl View for AgentOutcome {
    type V = OutcomeModel;

    open spec fn view(&self) -> OutcomeModel {
        OutcomeModel {
            results: match self.results {
                Some(r) => Some(result_models(r@)),
                None => None,
            },
            proof: self.proof,
            tx_hash: match self.tx_hash {
                Some(t) => Some(t@),
                None => None,
            },
            anchored: self.anchored,
        }
    }
}

/// The values of a sequence of events.
pub open spec fn event_models(v: Seq<AgentEvent>) -> Seq<EventModel> {
    Seq::new(v.len(), |i: int| v[i]@)
}

/// The outcome of a run of which nothing is known yet.
pub open spec fn empty_outcome() -> OutcomeModel {
    OutcomeModel { results: None, proof: None, tx_hash: None, anchored: None }
}

/// The outcome after one more event: its payload, where it has one,
/// takes the place of what the outcome held for that stage.
pub open spec fn apply_event(o: OutcomeModel, e: EventModel) -> OutcomeModel {
    match e.data {
        Some(DataModel::Results(r)) => OutcomeModel { results: Some(r), ..o },
        Some(DataModel::Sealed(p)) => OutcomeModel { proof: Some(p), ..o },
        Some(DataModel::Anchor { tx_hash }) => OutcomeModel { tx_hash: Some(tx_hash), ..o },
        Some(DataModel::Status { anchored }) => OutcomeModel { anchored: Some(anchored), ..o },
        None => o,
    }
}

/// The outcome that a trail stands for: its events applied in order.
pub open spec fn replay(events: Seq<EventModel>) -> OutcomeModel
    decreases events.len(),
{
    if events.len() == 0 {
        empty_outcome()
    } else {
        apply_event(replay(events.drop_last()), events.last())
    }
}

impl Proof {
    /// A copy, equal in every field.
    pub fn duplicate(&self) -> (r: Proof)
        ensures
            r == *self,
    {
        Proof {
            scheme: self.scheme.clone(),
            input_hash: self.input_hash.clone(),
            results_hash: self.results_hash.clone(),
            combined_hash: self.combined_hash.clone(),
            guidelines_hash: self.guidelines_hash.clone(),
            providers_hash: self.providers_hash.clone(),
            timestamp_ms: self.timestamp_ms,
            sdk_version: self.sdk_version.clone(),
            salt_present: self.salt_present,
        }
    }
}

impl EventData {
    /// A copy with the same value.
    pub fn duplicate(&self) -> (r: EventData)
        ensures
            r@ == self@,
    {
        match self {
            EventData::Results(v) => EventData::Results(duplicate_results(v)),
            EventData::Sealed(p) => EventData::Sealed(p.duplicate()),
            EventData::Anchor { tx_hash } => EventData::Anchor { tx_hash: tx_hash.clone() },
            EventData::Status { anchored } => EventData::Status { anchored: *anchored },
        }
    }
}

impl AgentEvent {
    /// A copy with the same value.
    pub fn duplicate(&self) -> (r: AgentEvent)
        ensures
            r@ == self@,
    {
        let data = match &self.data {
            Some(d) => Some(d.duplicate()),
            None => None,
        };
        AgentEvent { ts: self.ts, stage: self.stage.clone(), message: self.message.clone(), data }
    }
}

/// Copies the events from position `from` on; nothing where `from` lies
/// at or behind the end.
pub fn events_from(events: &Vec<AgentEvent>, from: usize) -> (out: Vec<AgentEvent>)
    ensures
        event_models(out@) == if from <= events@.len() {
            event_models(events@).subrange(from as int, events@.len() as int)
        } else {
            Seq::empty()
        },
{
    let mut out: Vec<AgentEvent> = Vec::new();
    let mut i: usize = from;
    while i < events.len()
        invariant
            from <= i,
            from <= events.len() ==> i <= events.len(),
            from <= events.len() ==> out@.len() == i - from,
            from > events.len() ==> out@.len() == 0,
            forall|k: int| 0 <= k < out@.len() ==> (#[trigger] out@[k])@ == events@[from + k]@,
        decreases events.len() - i,
    {
        out.push(events[i].duplicate());
        i += 1;
    }
    proof {
        if from <= events@.len() {
            assert(event_models(out@) =~= event_models(events@).subrange(
                from as int,
                events@.len() as int,
            ));
        } else {
            assert(event_models(out@) =~= Seq::empty());
        }
    }
    out
}

/// Rebuilds the outcome that a trail stands for.
pub fn replay_events(events: &Vec<AgentEvent>) -> (o: AgentOutcome)
    ensures
        o@ == replay(event_models(events@)),
{
    let mut o = AgentOutcome { results: None, proof: None, tx_hash: None, anchored: None };
    let mut i: usize = 0;
    assert(event_models(events@).take(0) =~= Seq::empty());
    while i < events.len()
        invariant
            i <= events.len(),
            o@ == replay(event_models(events@).take(i as int)),
        decreases events.len() - i,
    {
        proof {
            let next = event_models(events@).take(i as int + 1);
            assert(next.drop_last() =~= event_models(events@).take(i as int));
            assert(next.last() == events@[i as int]@);
        }
        match &events[i].data {
            Some(EventData::Results(v)) => {
                o.results = Some(duplicate_results(v));
            },
            Some(EventData::Sealed(p)) => {
                o.proof = Some(p.duplicate());
            },
            Some(EventData::Anchor { tx_hash }) => {
                o.tx_hash = Some(tx_hash.clone());
            },
            Some(EventData::Status { anchored }) => {
                o.anchored = Some(*anchored);
            },
            None => {},
        }
        i += 1;
    }
    assert(event_models(events@).take(events.len() as int) =~= event_models(events@));
    o
}

/// Replaying a trail that was read in two pieces gives the same outcome
/// as replaying it whole: a reader may fetch the events chunk by chunk.
pub proof fn lemma_replay_in_pieces(events: Seq<EventModel>, cut: int)
    requires
        0 <= cut <= events.len(),
    ensures
        replay(events.subrange(0, cut) + events.subrange(cut, events.len() as int)) == replay(
            events,
        ),
{
    assert(events.subrange(0, cut) + events.subrange(cut, events.len() as int) =~= events);
}


/// An event's value from its parts.
pub open spec fn ev(ts: i64, stage: Seq<char>, message: Seq<char>, data: Option<DataModel>) -> EventModel {
    EventModel { ts, stage, message, data }
}

/// Appends an event to a trail.
pub fn append_event(events: &mut Vec<AgentEvent>, e: AgentEvent)
    ensures
        event_models(final(events)@) == event_models(old(events)@).push(e@),
        final(events)@.len() == old(events)@.len() + 1,
        replay(event_models(final(events)@)) == apply_event(
            replay(event_models(old(events)@)),
            e@,
        ),
{
    events.push(e);
    assert(event_models(events@) =~= event_models(old(events)@).push(e@));
    proof {
        lemma_replay_push(event_models(old(events)@), e@);
    }
}

/// Replaying a trail with one more event applies that event to what the
/// trail stood for before.
pub proof fn lemma_replay_push(events: Seq<EventModel>, e: EventModel)
    ensures
        replay(events.push(e)) == apply_event(replay(events), e),
{
    assert(events.push(e).drop_last() =~= events);
}

} // verus!
