//! Plans, inputs and the staged run that they describe.
//!
//! A run does no outside work itself. It says which action comes next,
//! and whoever drives it reports what the action gave. Every transition
//! is recorded in the run's trail, and the trail is what the outcome is
//! read from.

use crate::attestation::{attests, opt_chars, seal_values, ProofContext};
use crate::json::{
    lemma_array_model, lemma_object_model, item_models, member_models, parsed_or_null, Json,
    JsonModel, Member,
};
use crate::domain::PantherError;
use crate::results_text::{are_results_spelled, spells_results};
use crate::events::{
    append_event, ev, event_models, replay, replay_events, AgentEvent, AgentOutcome,
    AgentRunResult, DataModel, EventData, EventModel,
};
use crate::retry::{Action, Control, Limits, Phase, RunStatus, Stage};
use crate::text::{decimal, decimal_text, join_text};
use crate::validation::{duplicate_results, result_models, ValidationResult};
use vstd::prelude::*;

verus! {

/// Per-stage deadlines in milliseconds; a missing one takes its default.
#[derive(Debug)]
pub struct Timeouts {
    pub validate_ms: Option<u64>,
    pub seal_ms: Option<u64>,
    pub anchor_ms: Option<u64>,
    pub status_ms: Option<u64>,
}

/// Per-stage retry counts; a missing one is zero.
#[derive(Debug)]
pub struct Retries {
    pub validate: Option<u32>,
    pub anchor: Option<u32>,
    pub status: Option<u32>,
}

/// Where and as whom to anchor.
#[derive(Debug)]
pub struct AnchorCfg {
    pub rpc_url: String,
    pub contract_addr: String,
    pub priv_key: String,
}

/// The configuration of one backend.
#[derive(Debug)]
pub struct ProviderCfg {
    pub ty: String,
    pub base_url: Option<String>,
    pub model: Option<String>,
    pub api_key: Option<String>,
}

/// An optional text as a JSON value: a string, or `null` where there is none.
pub open spec fn opt_text_model(t: Option<String>) -> JsonModel {
    match t {
        Some(s) => JsonModel::Text(s@),
        None => JsonModel::Null,
    }
}

fn opt_text_json(t: &Option<String>) -> (j: Json)
    ensures
        j@ == opt_text_model(*t),
{
    match t {
        Some(s) => Json::Text(s.clone()),
        None => Json::Null,
    }
}

impl ProviderCfg {
    /// The configuration as a JSON value: an object with the entries
    /// `type`, `base_url`, `model` and `api_key`, in this order.
    pub open spec fn spec_json(self) -> JsonModel {
        JsonModel::Object(
            seq![
                ("type"@, JsonModel::Text(self.ty@)),
                ("base_url"@, opt_text_model(self.base_url)),
                ("model"@, opt_text_model(self.model)),
                ("api_key"@, opt_text_model(self.api_key)),
            ],
        )
    }

    /// The configuration as a JSON value.
    pub fn to_json(&self) -> (j: Json)
        ensures
            j@ == self.spec_json(),
    {
        let mut members: Vec<Member> = Vec::new();
        members.push(Member { key: "type".to_owned(), value: Json::Text(self.ty.clone()) });
        members.push(Member { key: "base_url".to_owned(), value: opt_text_json(&self.base_url) });
        members.push(Member { key: "model".to_owned(), value: opt_text_json(&self.model) });
        members.push(Member { key: "api_key".to_owned(), value: opt_text_json(&self.api_key) });
        proof {
            lemma_object_model(members);
            assert(member_models(members@) =~= self.spec_json()->Object_0);
        }
        Json::Object(members)
    }
}

/// The configurations as a JSON array, in order.
pub open spec fn providers_model(cfgs: Seq<ProviderCfg>) -> JsonModel {
    JsonModel::Array(Seq::new(cfgs.len(), |i: int| cfgs[i].spec_json()))
}

/// The configurations as a JSON array, in order.
pub fn providers_to_json(cfgs: &Vec<ProviderCfg>) -> (j: Json)
    ensures
        j@ == providers_model(cfgs@),
{
    let mut items: Vec<Json> = Vec::new();
    let mut i: usize = 0;
    while i < cfgs.len()
        invariant
            i <= cfgs.len(),
            items@.len() == i,
            forall|k: int| 0 <= k < i ==> (#[trigger] items@[k])@ == cfgs@[k].spec_json(),
        decreases cfgs.len() - i,
    {
        items.push(cfgs[i].to_json());
        i += 1;
    }
    proof {
        lemma_array_model(items);
        assert(item_models(items@) =~= providers_model(cfgs@)->Array_0);
    }
    Json::Array(items)
}

/// What a run is asked to validate.
#[derive(Debug)]
pub struct AgentInput {
    pub prompt: String,
    pub providers: Vec<ProviderCfg>,
    pub salt: Option<String>,
}

/// What a run is asked to do.
#[derive(Debug)]
pub enum AgentPlan {
    ValidateSealAnchor {
        guidelines_json: Option<String>,
        anchor: Option<AnchorCfg>,
        timeouts_ms: Option<Timeouts>,
        retries: Option<Retries>,
    },
}

/// The value of an optional number, or `default` where there is none.
pub open spec fn or_default_u64(v: Option<u64>, default: u64) -> u64 {
    match v {
        Some(x) => x,
        None => default,
    }
}

/// The value of an optional count, or `default` where there is none.
pub open spec fn or_default_u32(v: Option<u32>, default: u32) -> u32 {
    match v {
        Some(x) => x,
        None => default,
    }
}

impl AgentPlan {
    /// The plan's deadlines and retry counts. Deadlines default to
    /// 30000 ms for validate and anchor and to 5000 ms for the status
    /// check; retries default to none.
    pub open spec fn spec_limits(self) -> Limits {
        match self {
            AgentPlan::ValidateSealAnchor { guidelines_json, anchor, timeouts_ms, retries } => Limits {
                validate_ms: match timeouts_ms {
                    Some(t) => or_default_u64(t.validate_ms, 30000),
                    None => 30000,
                },
                anchor_ms: match timeouts_ms {
                    Some(t) => or_default_u64(t.anchor_ms, 30000),
                    None => 30000,
                },
                status_ms: match timeouts_ms {
                    Some(t) => or_default_u64(t.status_ms, 5000),
                    None => 5000,
                },
                validate_retries: match retries {
                    Some(r) => or_default_u32(r.validate, 0),
                    None => 0,
                },
                anchor_retries: match retries {
                    Some(r) => or_default_u32(r.anchor, 0),
                    None => 0,
                },
                status_retries: match retries {
                    Some(r) => or_default_u32(r.status, 0),
                    None => 0,
                },
                anchor: anchor.is_some(),
            },
        }
    }

    /// The guidelines that the plan names, or `bundled` where it names none.
    pub open spec fn spec_guidelines(self, bundled: Seq<char>) -> Seq<char> {
        match self {
            AgentPlan::ValidateSealAnchor { guidelines_json, anchor, timeouts_ms, retries } => match guidelines_json {
                Some(g) => g@,
                None => bundled,
            },
        }
    }

    /// The plan's deadlines and retry counts, defaults filled in.
    pub fn limits(&self) -> (l: Limits)
        ensures
            l == self.spec_limits(),
    {
        match self {
            AgentPlan::ValidateSealAnchor { guidelines_json, anchor, timeouts_ms, retries } => {
                let (validate_ms, anchor_ms, status_ms): (u64, u64, u64) = match timeouts_ms {
                    Some(t) => (
                        match t.validate_ms {
                            Some(x) => x,
                            None => 30000,
                        },
                        match t.anchor_ms {
                            Some(x) => x,
                            None => 30000,
                        },
                        match t.status_ms {
                            Some(x) => x,
                            None => 5000,
                        },
                    ),
                    None => (30000, 30000, 5000),
                };
                let (validate_retries, anchor_retries, status_retries): (u32, u32, u32) =
                    match retries {
                    Some(r) => (
                        match r.validate {
                            Some(x) => x,
                            None => 0,
                        },
                        match r.anchor {
                            Some(x) => x,
                            None => 0,
                        },
                        match r.status {
                            Some(x) => x,
                            None => 0,
                        },
                    ),
                    None => (0, 0, 0),
                };
                Limits {
                    validate_ms,
                    anchor_ms,
                    status_ms,
                    validate_retries,
                    anchor_retries,
                    status_retries,
                    anchor: anchor.is_some(),
                }
            },
        }
    }
}

// ---------------------------------------------------------------------
// Messages
// ---------------------------------------------------------------------

/// The name under which a stage appears in the trail.
pub open spec fn stage_name(stage: Stage) -> Seq<char> {
    match stage {
        Stage::Validate => "validate"@,
        Stage::Seal => "seal"@,
        Stage::Anchor => "anchor"@,
        Stage::Status => "status"@,
    }
}

/// The message with which a retried stage begins.
pub open spec fn start_message(stage: Stage, retries: u32) -> Seq<char> {
    match stage {
        Stage::Validate => "starting validation (retries="@ + decimal_text(retries as nat) + ")"@,
        Stage::Anchor => "anchoring on-chain (retries="@ + decimal_text(retries as nat) + ")"@,
        Stage::Status => "confirming anchor (retries="@ + decimal_text(retries as nat) + ")"@,
        Stage::Seal => "computing proof"@,
    }
}

/// The message with which attempt number `number`, counted from one, begins.
pub open spec fn attempt_message(stage: Stage, number: nat, retries: u32) -> Seq<char> {
    if stage == Stage::Status {
        "checking status (attempt "@ + decimal_text(number) + " of "@ + decimal_text(
            (retries + 1) as nat,
        ) + ")"@
    } else {
        "attempt "@ + decimal_text(number)
    }
}

/// The message that records a failed attempt.
pub open spec fn failure_message(detail: Seq<char>) -> Seq<char> {
    "attempt failed: "@ + detail
}

/// The name under which a stage appears in the trail.
pub fn stage_label(stage: Stage) -> (r: String)
    ensures
        r@ == stage_name(stage),
{
    match stage {
        Stage::Validate => "validate".to_owned(),
        Stage::Seal => "seal".to_owned(),
        Stage::Anchor => "anchor".to_owned(),
        Stage::Status => "status".to_owned(),
    }
}

fn start_text(stage: Stage, retries: u32) -> (r: String)
    ensures
        r@ == start_message(stage, retries),
{
    let head = match stage {
        Stage::Validate => "starting validation (retries=",
        Stage::Anchor => "anchoring on-chain (retries=",
        Stage::Status => "confirming anchor (retries=",
        Stage::Seal => {
            return "computing proof".to_owned();
        },
    };
    let count = decimal(retries as u64);
    let open = join_text(head, count.as_str());
    join_text(open.as_str(), ")")
}

fn attempt_text(stage: Stage, number: u64, retries: u32) -> (r: String)
    ensures
        r@ == attempt_message(stage, number as nat, retries),
{
    let n = decimal(number);
    match stage {
        Stage::Status => {
            let of = decimal(retries as u64 + 1);
            let a = join_text("checking status (attempt ", n.as_str());
            let b = join_text(a.as_str(), " of ");
            let c = join_text(b.as_str(), of.as_str());
            join_text(c.as_str(), ")")
        },
        _ => join_text("attempt ", n.as_str()),
    }
}

/// An event without payload.
fn note(ts: i64, stage: Stage, message: String) -> (e: AgentEvent)
    ensures
        e@ == ev(ts, stage_name(stage), message@, None),
{
    AgentEvent { ts, stage: stage_label(stage), message, data: None }
}

/// An event with a payload.
fn record(ts: i64, stage: Stage, message: &str, data: EventData) -> (e: AgentEvent)
    ensures
        e@ == ev(ts, stage_name(stage), message@, Some(data@)),
{
    AgentEvent { ts, stage: stage_label(stage), message: message.to_owned(), data: Some(data) }
}

// ---------------------------------------------------------------------
// Runs
// ---------------------------------------------------------------------

/// One execution of a plan.
#[derive(Debug)]
pub struct Run {
    pub limits: Limits,
    pub control: Control,
    pub prompt: String,
    /// The input's backend configurations as a JSON value.
    pub providers: Json,
    pub guidelines_json: String,
    pub ctx: ProofContext,
    /// The combined hash, once the seal stage has computed it.
    pub combined_hash: Option<String>,
    /// Why the run failed, where it did.
    pub error: Option<String>,
    pub events: Vec<AgentEvent>,
}

/// The next action of a run with the inputs that performing it takes.
#[derive(Debug)]
pub struct RunBrief {
    pub action: Action,
    pub prompt: String,
    pub guidelines_json: String,
    /// The hash to anchor, once the seal stage has computed it.
    pub combined_hash: Option<String>,
}

/// The two events with which a retried stage begins.
pub open spec fn opening(ts: i64, stage: Stage, retries: u32) -> Seq<EventModel> {
    seq![
        ev(ts, stage_name(stage), start_message(stage, retries), None),
        ev(ts, stage_name(stage), attempt_message(stage, 1, retries), None),
    ]
}

/// The combined hash that a seal event carries; empty where it carries none.
pub open spec fn sealed_hash(e: EventModel) -> Seq<char> {
    match e.data {
        Some(DataModel::Sealed(p)) => p.combined_hash@,
        _ => Seq::empty(),
    }
}

impl Run {
    /// The invariant of a run.
    pub open spec fn wf(self) -> bool {
        &&& self.control.attempt <= self.limits.spec_retries(self.control.phase)
        &&& self.control.sleeping ==> self.control.phase.retries_work() && self.control.attempt
            < self.limits.spec_retries(self.control.phase)
        &&& (self.control.phase == Phase::Failed) == self.error.is_some()
        &&& (self.control.phase == Phase::Anchoring || self.control.phase == Phase::Confirming)
            ==> self.combined_hash.is_some() && self.limits.anchor
        &&& self.outcome_fits()
    }

    /// The outcome holds what the stages passed so far have produced,
    /// and nothing of a stage that was not reached or is skipped.
    pub open spec fn outcome_fits(self) -> bool {
        let o = self.spec_outcome();
        let p = self.control.phase;
        &&& p == Phase::Validating ==> o == crate::events::empty_outcome()
        &&& p == Phase::Attesting ==> o.results.is_some() && o.proof.is_none()
        &&& (p == Phase::Anchoring || p == Phase::Confirming || p == Phase::Succeeded)
            ==> o.results.is_some() && o.proof.is_some()
        &&& (p == Phase::Validating || p == Phase::Attesting || p == Phase::Anchoring)
            ==> o.tx_hash.is_none() && o.anchored.is_none()
        &&& p == Phase::Confirming ==> o.tx_hash.is_some() && o.anchored.is_none()
        &&& p == Phase::Succeeded && self.limits.anchor ==> o.tx_hash.is_some()
            && o.anchored.is_some()
        &&& !self.limits.anchor ==> o.tx_hash.is_none() && o.anchored.is_none()
        &&& o.proof.is_some() ==> self.combined_hash.is_some() && self.combined_hash->Some_0@
            == o.proof->Some_0.combined_hash@
    }

    /// Whether two runs agree in all that is fixed when a run starts.
    pub open spec fn same_setup(self, other: Run) -> bool {
        &&& self.limits == other.limits
        &&& self.prompt == other.prompt
        &&& self.providers == other.providers
        &&& self.guidelines_json == other.guidelines_json
        &&& self.ctx == other.ctx
    }

    /// The trail as values.
    pub open spec fn trail(self) -> Seq<EventModel> {
        event_models(self.events@)
    }

    /// The outcome that the trail stands for.
    pub open spec fn spec_outcome(self) -> crate::events::OutcomeModel {
        replay(self.trail())
    }

    /// What a taken report of validation results does to a run.
    pub open spec fn validated(self, results: Seq<crate::validation::ResultModel>, ts: i64, post: Run) -> bool {
        &&& post.same_setup(self)
        &&& post.control == self.control.after_success(self.limits)
        &&& post.combined_hash == self.combined_hash
        &&& post.error == self.error
        &&& post.trail() == self.trail() + seq![
            ev(
                ts,
                stage_name(Stage::Validate),
                "validation complete"@,
                Some(DataModel::Results(results)),
            ),
            ev(ts, stage_name(Stage::Seal), "computing proof"@, None),
        ]
        &&& post.spec_outcome() == (crate::events::OutcomeModel {
            results: Some(results),
            ..self.spec_outcome()
        })
    }

    /// What handing in the results text does to a run in the attest stage.
    pub open spec fn serialized(self, results_json: Seq<char>, ts: i64, post: Run) -> bool {
        let n = self.trail().len() as int;
        let tail = if self.limits.anchor {
            opening(ts, Stage::Anchor, self.limits.anchor_retries)
        } else {
            Seq::empty()
        };
        &&& post.same_setup(self)
        &&& post.control == self.control.after_success(self.limits)
        &&& post.error == self.error
        &&& post.trail().len() == n + 1 + tail.len()
        &&& post.trail().subrange(0, n) == self.trail()
        &&& self.seals(post.trail()[n], results_json, ts)
        &&& post.trail().subrange(n + 1, n + 1 + tail.len()) == tail
        &&& post.combined_hash.is_some()
        &&& post.combined_hash->Some_0@ == sealed_hash(post.trail()[n])
        &&& post.spec_outcome() == (crate::events::OutcomeModel {
            proof: Some(post.trail()[n].data->Some_0->Sealed_0),
            ..self.spec_outcome()
        })
    }

    /// What a taken report of a submitted transaction does to a run.
    pub open spec fn anchored(self, tx_hash: Seq<char>, ts: i64, post: Run) -> bool {
        &&& post.same_setup(self)
        &&& post.control == self.control.after_success(self.limits)
        &&& post.combined_hash == self.combined_hash
        &&& post.error == self.error
        &&& post.trail() == self.trail().push(
            ev(
                ts,
                stage_name(Stage::Anchor),
                "anchor tx submitted"@,
                Some(DataModel::Anchor { tx_hash: tx_hash }),
            ),
        ) + opening(ts, Stage::Status, self.limits.status_retries)
        &&& post.spec_outcome() == (crate::events::OutcomeModel {
            tx_hash: Some(tx_hash),
            ..self.spec_outcome()
        })
    }

    /// What a taken report of the ledger's answer does to a run.
    pub open spec fn status_checked(self, anchored: bool, ts: i64, post: Run) -> bool {
        &&& post.same_setup(self)
        &&& post.control == Control::at_start_of(Phase::Succeeded)
        &&& post.combined_hash == self.combined_hash
        &&& post.error == self.error
        &&& post.trail() == self.trail().push(
            ev(
                ts,
                stage_name(Stage::Status),
                "status checked"@,
                Some(DataModel::Status { anchored }),
            ),
        )
        &&& post.spec_outcome() == (crate::events::OutcomeModel {
            anchored: Some(anchored),
            ..self.spec_outcome()
        })
    }

    /// What a taken report of a failed attempt does to a run.
    pub open spec fn failed(self, detail: Seq<char>, ts: i64, post: Run) -> bool {
        let stage = self.control.phase.spec_stage();
        let failure = ev(ts, stage_name(stage), failure_message(detail), None);
        let gives_up = self.control.on_last_attempt(self.limits);
        &&& post.same_setup(self)
        &&& post.control == self.control.after_failure(self.limits)
        &&& post.combined_hash == self.combined_hash
        &&& if gives_up && stage == Stage::Status {
            &&& post.trail() == self.trail().push(failure).push(
                ev(
                    ts,
                    stage_name(Stage::Status),
                    "status checked"@,
                    Some(DataModel::Status { anchored: false }),
                ),
            )
            &&& post.error.is_none()
            &&& post.control.phase == Phase::Succeeded
            &&& post.spec_outcome() == (crate::events::OutcomeModel {
                anchored: Some(false),
                ..self.spec_outcome()
            })
        } else {
            &&& post.trail() == self.trail().push(failure)
            &&& post.spec_outcome() == self.spec_outcome()
            &&& gives_up ==> post.control.phase == Phase::Failed
                && post.error.is_some() && post.error->Some_0@ == detail
            &&& !gives_up ==> post.error.is_none() && post.control.phase
                == self.control.phase
        }
    }

    /// What a taken report of a failure beyond mending does to a run: the
    /// failure is recorded and the stage ends at once, whatever retries
    /// are left. In the validate and anchor stages the run has failed, with
    /// the failure's reason as its error. In the confirm stage it has
    /// succeeded and records that the hash was not seen anchored.
    pub open spec fn gave_up(self, detail: Seq<char>, ts: i64, post: Run) -> bool {
        let stage = self.control.phase.spec_stage();
        let failure = ev(ts, stage_name(stage), failure_message(detail), None);
        &&& post.same_setup(self)
        &&& post.control == self.control.after_fatal()
        &&& post.combined_hash == self.combined_hash
        &&& if stage == Stage::Status {
            &&& post.trail() == self.trail().push(failure).push(
                ev(
                    ts,
                    stage_name(Stage::Status),
                    "status checked"@,
                    Some(DataModel::Status { anchored: false }),
                ),
            )
            &&& post.error.is_none()
            &&& post.control.phase == Phase::Succeeded
            &&& post.spec_outcome() == (crate::events::OutcomeModel {
                anchored: Some(false),
                ..self.spec_outcome()
            })
        } else {
            &&& post.trail() == self.trail().push(failure)
            &&& post.spec_outcome() == self.spec_outcome()
            &&& post.control.phase == Phase::Failed
            &&& post.error.is_some() && post.error->Some_0@ == detail
        }
    }

    /// What a taken report of a finished backoff does to a run.
    pub open spec fn slept(self, ts: i64, post: Run) -> bool {
        let stage = self.control.phase.spec_stage();
        &&& post.same_setup(self)
        &&& post.control == self.control.after_sleep()
        &&& post.control.attempt == self.control.attempt + 1
        &&& post.combined_hash == self.combined_hash
        &&& post.error == self.error
        &&& post.trail() == self.trail().push(
            ev(
                ts,
                stage_name(stage),
                attempt_message(
                    stage,
                    (self.control.attempt + 2) as nat,
                    self.limits.spec_retries(self.control.phase),
                ),
                None,
            ),
        )
        &&& post.spec_outcome() == self.spec_outcome()
    }

    /// Begins a run of `plan` on `input` at time `ts`.
    ///
    /// `bundled_guidelines` is the guideline set used where the plan names
    /// none. The run begins in the validate stage.
    pub fn start(
        plan: &AgentPlan,
        input: &AgentInput,
        bundled_guidelines: &str,
        sdk_version: String,
        ts: i64,
    ) -> (run: Run)
        ensures
            run.wf(),
            run.limits == plan.spec_limits(),
            run.control == Control::at_start_of(Phase::Validating),
            run.prompt@ == input.prompt@,
            run.providers@ == providers_model(input.providers@),
            run.guidelines_json@ == plan.spec_guidelines(bundled_guidelines@),
            run.ctx.sdk_version == sdk_version,
            opt_chars(run.ctx.salt) == opt_chars(input.salt),
            run.combined_hash.is_none(),
            run.error.is_none(),
            run.trail() == opening(ts, Stage::Validate, plan.spec_limits().validate_retries),
    {
        let limits = plan.limits();
        let guidelines_json = match plan {
            AgentPlan::ValidateSealAnchor { guidelines_json, anchor, timeouts_ms, retries } => match guidelines_json {
                Some(g) => g.clone(),
                None => bundled_guidelines.to_owned(),
            },
        };
        let salt = match &input.salt {
            Some(s) => Some(s.clone()),
            None => None,
        };
        let mut events: Vec<AgentEvent> = Vec::new();
        assert(event_models(events@) =~= Seq::empty());
        append_event(
            &mut events,
            note(ts, Stage::Validate, start_text(Stage::Validate, limits.validate_retries)),
        );
        append_event(
            &mut events,
            note(ts, Stage::Validate, attempt_text(Stage::Validate, 1, limits.validate_retries)),
        );
        assert(event_models(events@) =~= opening(ts, Stage::Validate, limits.validate_retries));
        Run {
            limits,
            control: Control { phase: Phase::Validating, attempt: 0, sleeping: false },
            prompt: input.prompt.clone(),
            providers: providers_to_json(&input.providers),
            guidelines_json,
            ctx: ProofContext { sdk_version, salt },
            combined_hash: None,
            error: None,
            events,
        }
    }

    /// The action that the run asks for next.
    pub fn next_action(&self) -> (a: Action)
        ensures
            a == self.control.spec_next_action(self.limits),
    {
        self.control.next_action(&self.limits)
    }

    /// What the driver needs to know to perform the next action.
    pub fn brief(&self) -> (b: RunBrief)
        ensures
            b.action == self.control.spec_next_action(self.limits),
            b.prompt == self.prompt,
            b.guidelines_json == self.guidelines_json,
            b.combined_hash == self.combined_hash,
    {
        let combined_hash = match &self.combined_hash {
            Some(h) => Some(h.clone()),
            None => None,
        };
        RunBrief {
            action: self.next_action(),
            prompt: self.prompt.clone(),
            guidelines_json: self.guidelines_json.clone(),
            combined_hash,
        }
    }

    /// What a caller sees of the run's progress, and whether it has ended.
    pub fn status(&self) -> (r: (RunStatus, bool))
        ensures
            r.0 == self.control.phase.spec_status(),
            r.1 == self.control.phase.is_terminal(),
    {
        let s = self.control.phase.status();
        (s, s != RunStatus::Running)
    }

    /// The outcome as the trail gives it, whether or not the run has ended.
    pub fn outcome(&self) -> (o: AgentOutcome)
        ensures
            o@ == self.spec_outcome(),
    {
        replay_events(&self.events)
    }

    /// The outcome once the run has ended; `None` while it is running.
    pub fn result(&self) -> (o: Option<AgentOutcome>)
        ensures
            o.is_some() == self.control.phase.is_terminal(),
            o.is_some() ==> o->Some_0@ == self.spec_outcome(),
    {
        if self.control.phase == Phase::Succeeded || self.control.phase == Phase::Failed {
            Some(replay_events(&self.events))
        } else {
            None
        }
    }

    /// Whether the run is well formed. A run that `start` made and only
    /// reports have changed always is; one whose fields were set by hand
    /// may not be.
    pub fn check(&self) -> (ok: bool)
        ensures
            ok == self.wf(),
    {
        let phase = self.control.phase;
        let retries = self.limits.retries(phase);
        let works = phase == Phase::Validating || phase == Phase::Anchoring || phase
            == Phase::Confirming;
        if self.control.attempt > retries {
            return false;
        }
        if self.control.sleeping && !(works && self.control.attempt < retries) {
            return false;
        }
        if (phase == Phase::Failed) != self.error.is_some() {
            return false;
        }
        if (phase == Phase::Anchoring || phase == Phase::Confirming) && !(
        self.combined_hash.is_some() && self.limits.anchor) {
            return false;
        }
        let o = replay_events(&self.events);
        let nothing_anchored = o.tx_hash.is_none() && o.anchored.is_none();
        let fits_phase = match phase {
            Phase::Validating => o.results.is_none() && o.proof.is_none() && nothing_anchored,
            Phase::Attesting => o.results.is_some() && o.proof.is_none() && nothing_anchored,
            Phase::Anchoring => o.results.is_some() && o.proof.is_some() && nothing_anchored,
            Phase::Confirming => o.results.is_some() && o.proof.is_some() && o.tx_hash.is_some()
                && o.anchored.is_none(),
            Phase::Succeeded => o.results.is_some() && o.proof.is_some() && (!self.limits.anchor
                || (o.tx_hash.is_some() && o.anchored.is_some())),
            Phase::Failed => true,
        };
        if !fits_phase {
            return false;
        }
        if !self.limits.anchor && !nothing_anchored {
            return false;
        }
        match (&o.proof, &self.combined_hash) {
            (Some(p), Some(h)) => p.combined_hash == *h,
            (Some(_), None) => false,
            _ => true,
        }
    }

    /// Ends the run and hands out its outcome with the whole trail.
    ///
    /// Fails where the run has failed, with the reason of the failure
    /// that ended it, and where the run has not ended yet. A run whose
    /// confirm stage used up its attempts has succeeded.
    pub fn finish(self) -> (r: Result<AgentRunResult, PantherError>)
        requires
            self.wf(),
        ensures
            r is Ok <==> self.control.phase == Phase::Succeeded,
            r is Ok ==> r->Ok_0.outcome@ == self.spec_outcome() && r->Ok_0.events == self.events,
            self.control.phase == Phase::Failed ==> r is Err && r->Err_0 is StageExhausted
                && r->Err_0.spec_detail() == self.error->Some_0,
            !self.control.phase.is_terminal() ==> r is Err && r->Err_0 is InvalidInput,
    {
        match self.control.phase {
            Phase::Succeeded => {
                let outcome = replay_events(&self.events);
                Ok(AgentRunResult { outcome, events: self.events })
            },
            Phase::Failed => match self.error {
                Some(reason) => Err(PantherError::StageExhausted(reason)),
                None => Err(PantherError::StageExhausted("stage failed".to_owned())),
            },
            _ => Err(PantherError::InvalidInput("run has not ended".to_owned())),
        }
    }

    /// Reports that the validation fan-out returned `results`.
    ///
    /// Taken only while the run waits for an attempt of the validate
    /// stage; otherwise the run stays as it is and `false` is returned.
    pub fn on_validated(&mut self, results: &Vec<ValidationResult>, ts: i64) -> (accepted: bool)
        requires
            old(self).wf(),
        ensures
            final(self).wf(),
            accepted == (old(self).control.phase == Phase::Validating && !old(self).control.sleeping),
            !accepted ==> *final(self) == *old(self),
            accepted ==> old(self).validated(result_models(results@), ts, *final(self)),
    {
        if !(self.control.phase == Phase::Validating && !self.control.sleeping) {
            return false;
        }
        let ghost before = self.trail();
        let data = EventData::Results(duplicate_results(results));
        append_event(&mut self.events, record(ts, Stage::Validate, "validation complete", data));
        append_event(&mut self.events, note(ts, Stage::Seal, start_text(Stage::Seal, 0)));
        self.control = self.control.succeed(&self.limits);
        assert(self.trail() =~= before + seq![
            ev(
                ts,
                stage_name(Stage::Validate),
                "validation complete"@,
                Some(DataModel::Results(result_models(results@))),
            ),
            ev(ts, stage_name(Stage::Seal), "computing proof"@, None),
        ]);
        true
    }

    /// Whether `e` records the attestation of this run's inputs and of
    /// the results text `results_json`, issued at `ts`.
    pub open spec fn seals(self, e: EventModel, results_json: Seq<char>, ts: i64) -> bool {
        &&& e.ts == ts
        &&& e.stage == stage_name(Stage::Seal)
        &&& e.message == "proof computed"@
        &&& e.data matches Some(DataModel::Sealed(p)) && attests(
            p,
            self.prompt@,
            self.providers@,
            parsed_or_null(self.guidelines_json@),
            parsed_or_null(results_json),
            self.ctx.sdk_version@,
            opt_chars(self.ctx.salt),
            ts,
        )
    }

    /// Whether the run takes `results_json` as the text of its results:
    /// it stands in the attest stage and the text spells the results that
    /// the validate stage recorded.
    pub open spec fn takes_text(self, results_json: Seq<char>) -> bool {
        &&& self.control.phase == Phase::Attesting
        &&& self.spec_outcome().results.is_some()
        &&& spells_results(parsed_or_null(results_json), self.spec_outcome().results->Some_0)
    }

    /// Hands in the results as JSON text, on which the run computes the
    /// attestation. Where the plan asks for it, the anchor stage begins;
    /// otherwise the run has succeeded.
    ///
    /// Taken only in the attest stage, and only where the text spells the
    /// results that the validate stage recorded.
    pub fn on_serialized(&mut self, results_json: &str, ts: i64) -> (accepted: bool)
        requires
            old(self).wf(),
        ensures
            final(self).wf(),
            accepted == old(self).takes_text(results_json@),
            !accepted ==> *final(self) == *old(self),
            accepted ==> old(self).serialized(results_json@, ts, *final(self)),
    {
        if self.control.phase != Phase::Attesting {
            return false;
        }
        let results_value = Json::parse_or_null(results_json);
        let recorded = replay_events(&self.events);
        let spelled = match &recorded.results {
            Some(r) => are_results_spelled(&results_value, r),
            None => false,
        };
        if !spelled {
            return false;
        }
        let ghost before = self.trail();
        let ghost n = before.len() as int;
        let proof_value = seal_values(
            self.prompt.as_str(),
            self.providers.duplicate(),
            Json::parse_or_null(self.guidelines_json.as_str()),
            &results_value,
            &self.ctx,
            ts,
        );
        self.combined_hash = Some(proof_value.combined_hash.clone());
        let ghost sealed = ev(
            ts,
            stage_name(Stage::Seal),
            "proof computed"@,
            Some(DataModel::Sealed(proof_value)),
        );
        append_event(
            &mut self.events,
            record(ts, Stage::Seal, "proof computed", EventData::Sealed(proof_value)),
        );
        if self.limits.anchor {
            let r = self.limits.anchor_retries;
            append_event(&mut self.events, note(ts, Stage::Anchor, start_text(Stage::Anchor, r)));
            append_event(&mut self.events, note(ts, Stage::Anchor, attempt_text(Stage::Anchor, 1, r)));
            assert(self.trail() =~= before.push(sealed) + opening(ts, Stage::Anchor, r));
            assert(self.trail().subrange(n + 1, n + 3) =~= opening(ts, Stage::Anchor, r));
        } else {
            assert(self.trail() =~= before.push(sealed));
            assert(self.trail().subrange(n + 1, n + 1) =~= Seq::empty());
        }
        assert(self.trail().subrange(0, n) =~= before);
        assert(self.trail()[n] == sealed);
        self.control = self.control.succeed(&self.limits);
        true
    }

    /// Reports that the ledger took the hash in transaction `tx_hash`.
    /// The confirm stage begins.
    ///
    /// Taken only while the run waits for an attempt of the anchor stage.
    pub fn on_anchored(&mut self, tx_hash: String, ts: i64) -> (accepted: bool)
        requires
            old(self).wf(),
        ensures
            final(self).wf(),
            accepted == (old(self).control.phase == Phase::Anchoring && !old(self).control.sleeping),
            !accepted ==> *final(self) == *old(self),
            accepted ==> old(self).anchored(tx_hash@, ts, *final(self)),
    {
        if !(self.control.phase == Phase::Anchoring && !self.control.sleeping) {
            return false;
        }
        let ghost before = self.trail();
        let r = self.limits.status_retries;
        let data = EventData::Anchor { tx_hash };
        append_event(&mut self.events, record(ts, Stage::Anchor, "anchor tx submitted", data));
        append_event(&mut self.events, note(ts, Stage::Status, start_text(Stage::Status, r)));
        append_event(&mut self.events, note(ts, Stage::Status, attempt_text(Stage::Status, 1, r)));
        self.control = self.control.succeed(&self.limits);
        assert(self.trail() =~= before.push(
            ev(
                ts,
                stage_name(Stage::Anchor),
                "anchor tx submitted"@,
                Some(DataModel::Anchor { tx_hash: tx_hash@ }),
            ),
        ) + opening(ts, Stage::Status, r));
        true
    }

    /// Reports what the ledger said of the hash. The run has succeeded.
    ///
    /// Taken only while the run waits for an attempt of the confirm stage.
    pub fn on_status(&mut self, anchored: bool, ts: i64) -> (accepted: bool)
        requires
            old(self).wf(),
        ensures
            final(self).wf(),
            accepted == (old(self).control.phase == Phase::Confirming && !old(self).control.sleeping),
            !accepted ==> *final(self) == *old(self),
            accepted ==> old(self).status_checked(anchored, ts, *final(self)),
    {
        if !(self.control.phase == Phase::Confirming && !self.control.sleeping) {
            return false;
        }
        let ghost before = self.trail();
        let data = EventData::Status { anchored };
        append_event(&mut self.events, record(ts, Stage::Status, "status checked", data));
        self.control = self.control.succeed(&self.limits);
        proof {
            crate::events::lemma_replay_push(
                before,
                ev(
                    ts,
                    stage_name(Stage::Status),
                    "status checked"@,
                    Some(DataModel::Status { anchored }),
                ),
            );
        }
        true
    }

    /// Reports that the attempt under way failed or ran out of time.
    ///
    /// The failure is recorded. While the stage has retries left the run
    /// then waits out a backoff. After the last attempt the run fails,
    /// except in the confirm stage: there it succeeds and records that the
    /// hash was not seen anchored.
    ///
    /// Taken only while the run waits for an attempt.
    pub fn on_failed(&mut self, detail: &str, ts: i64) -> (accepted: bool)
        requires
            old(self).wf(),
        ensures
            final(self).wf(),
            accepted == old(self).control.awaits_attempt(),
            !accepted ==> *final(self) == *old(self),
            accepted ==> old(self).failed(detail@, ts, *final(self)),
    {
        let phase = self.control.phase;
        let works = phase == Phase::Validating || phase == Phase::Anchoring || phase
            == Phase::Confirming;
        if !works || self.control.sleeping {
            return false;
        }
        let ghost before = self.trail();
        let stage = phase.stage();
        let gives_up = self.control.attempt >= self.limits.retries(phase);
        let message = join_text("attempt failed: ", detail);
        append_event(&mut self.events, note(ts, stage, message));
        if gives_up {
            if phase == Phase::Confirming {
                let data = EventData::Status { anchored: false };
                append_event(&mut self.events, record(ts, Stage::Status, "status checked", data));
                proof {
                    let failure = ev(ts, stage_name(stage), failure_message(detail@), None);
                    crate::events::lemma_replay_push(
                        before.push(failure),
                        ev(
                            ts,
                            stage_name(Stage::Status),
                            "status checked"@,
                            Some(DataModel::Status { anchored: false }),
                        ),
                    );
                }
            } else {
                self.error = Some(detail.to_owned());
            }
        }
        self.control = self.control.fail(&self.limits);
        true
    }

    /// Reports that the attempt under way failed in a way that no
    /// further attempt can mend, such as a configuration that names no
    /// usable backend.
    ///
    /// The failure is recorded and the stage ends at once, whatever
    /// retries are left: no backoff is asked for and no further attempt is
    /// made. The run ends as after the failure of the stage's last attempt.
    ///
    /// Taken only while the run waits for an attempt.
    pub fn on_fatal(&mut self, detail: &str, ts: i64) -> (accepted: bool)
        requires
            old(self).wf(),
        ensures
            final(self).wf(),
            accepted == old(self).control.takes_fatal(),
            !accepted ==> *final(self) == *old(self),
            accepted ==> old(self).gave_up(detail@, ts, *final(self)),
            accepted ==> final(self).control.phase.is_terminal(),
    {
        let phase = self.control.phase;
        let works = phase == Phase::Validating || phase == Phase::Anchoring || phase
            == Phase::Confirming;
        if !((works && !self.control.sleeping) || phase == Phase::Attesting) {
            return false;
        }
        let stage = phase.stage();
        let message = join_text("attempt failed: ", detail);
        append_event(&mut self.events, note(ts, stage, message));
        if phase == Phase::Confirming {
            let data = EventData::Status { anchored: false };
            append_event(&mut self.events, record(ts, Stage::Status, "status checked", data));
        } else {
            self.error = Some(detail.to_owned());
        }
        self.control = self.control.give_up();
        true
    }

    /// Reports that the backoff has been waited out. The next attempt
    /// of the stage begins.
    ///
    /// Taken only while the run waits out a backoff.
    pub fn on_slept(&mut self, ts: i64) -> (accepted: bool)
        requires
            old(self).wf(),
        ensures
            final(self).wf(),
            accepted == old(self).control.sleeping,
            !accepted ==> *final(self) == *old(self),
            accepted ==> old(self).slept(ts, *final(self)),
    {
        if !self.control.sleeping {
            return false;
        }
        let phase = self.control.phase;
        let stage = phase.stage();
        let retries = self.limits.retries(phase);
        let number: u64 = self.control.attempt as u64 + 2;
        append_event(&mut self.events, note(ts, stage, attempt_text(stage, number, retries)));
        self.control = self.control.wake();
        true
    }
}

/// What the driver of a run reports back to it.
#[derive(Debug)]
pub enum Report {
    /// The validation fan-out returned these results.
    Validated(Vec<ValidationResult>),
    /// The results of the validate stage as JSON text.
    Serialized(String),
    /// The ledger took the hash in this transaction.
    Anchored(String),
    /// What the ledger said of the hash.
    Status(bool),
    /// The attempt under way failed or ran out of time, with the reason.
    Failed(String),
    /// The attempt under way failed in a way that no further attempt can
    /// mend, with the reason.
    Fatal(String),
    /// The backoff has been waited out.
    Slept,
}

impl PantherError {
    /// Whether no further attempt can mend the error: a configuration
    /// that does not allow the call, or an input that cannot be used. The
    /// failure of a backend or of a stage's work may pass.
    pub open spec fn is_fatal(self) -> bool {
        self is Config || self is InvalidInput
    }
}

impl Report {
    /// The report of an attempt that failed with `e`: a failure beyond
    /// mending for a configuration or input error, which is never
    /// retried, and a failure that may be retried otherwise.
    pub open spec fn spec_of_error(e: PantherError) -> Report {
        if e.is_fatal() {
            Report::Fatal(e.spec_detail())
        } else {
            Report::Failed(e.spec_detail())
        }
    }

    /// The report of an attempt that failed with `e`.
    pub fn of_error(e: PantherError) -> (r: Report)
        ensures
            r == Report::spec_of_error(e),
    {
        match e {
            PantherError::Config(m) => Report::Fatal(m),
            PantherError::InvalidInput(m) => Report::Fatal(m),
            PantherError::Provider(m) => Report::Failed(m),
            PantherError::StageExhausted(m) => Report::Failed(m),
        }
    }
}

impl Run {
    /// Whether the run takes a report in the state it is in.
    pub open spec fn accepts(self, report: Report) -> bool {
        match report {
            Report::Validated(_) => self.control.phase == Phase::Validating
                && !self.control.sleeping,
            Report::Serialized(text) => self.takes_text(text@),
            Report::Anchored(_) => self.control.phase == Phase::Anchoring && !self.control.sleeping,
            Report::Status(_) => self.control.phase == Phase::Confirming && !self.control.sleeping,
            Report::Failed(_) => self.control.awaits_attempt(),
            Report::Fatal(_) => self.control.takes_fatal(),
            Report::Slept => self.control.sleeping,
        }
    }

    /// What a taken report does to a run.
    pub open spec fn reported(self, report: Report, ts: i64, post: Run) -> bool {
        match report {
            Report::Validated(results) => self.validated(result_models(results@), ts, post),
            Report::Serialized(text) => self.serialized(text@, ts, post),
            Report::Anchored(tx_hash) => self.anchored(tx_hash@, ts, post),
            Report::Status(anchored) => self.status_checked(anchored, ts, post),
            Report::Failed(detail) => self.failed(detail@, ts, post),
            Report::Fatal(detail) => self.gave_up(detail@, ts, post),
            Report::Slept => self.slept(ts, post),
        }
    }

    /// Hands a report to the run. A report that does not fit the state
    /// of the run leaves it as it is.
    pub fn report(&mut self, report: Report, ts: i64) -> (accepted: bool)
        requires
            old(self).wf(),
        ensures
            final(self).wf(),
            accepted == old(self).accepts(report),
            !accepted ==> *final(self) == *old(self),
            accepted ==> old(self).reported(report, ts, *final(self)),
    {
        match report {
            Report::Validated(results) => self.on_validated(&results, ts),
            Report::Serialized(text) => self.on_serialized(text.as_str(), ts),
            Report::Anchored(tx_hash) => self.on_anchored(tx_hash, ts),
            Report::Status(anchored) => self.on_status(anchored, ts),
            Report::Failed(detail) => self.on_failed(detail.as_str(), ts),
            Report::Fatal(detail) => self.on_fatal(detail.as_str(), ts),
            Report::Slept => self.on_slept(ts),
        }
    }
}

/// A report never rewrites the past: the trail before it is the
/// beginning of the trail after it, the run does not move to an earlier
/// phase, and what was fixed at the start stays fixed.
pub proof fn lemma_report_appends(pre: Run, report: Report, ts: i64, post: Run)
    requires
        pre.reported(report, ts, post),
    ensures
        pre.trail().is_prefix_of(post.trail()),
        crate::retry::phase_rank(post.control.phase) >= crate::retry::phase_rank(pre.control.phase),
        post.same_setup(pre),
{
    crate::retry::lemma_forward_only(pre.control, pre.limits);
    match report {
        Report::Serialized(text) => {
            let n = pre.trail().len() as int;
            assert(post.trail().subrange(0, n) == pre.trail());
        },
        _ => {},
    }
}

/// A run whose confirm stage has used up its attempts still succeeds,
/// and its outcome says that the hash was not seen anchored. In the
/// validate and anchor stages the same failure ends the run as failed,
/// with the failure's reason as its error.
pub proof fn lemma_exhaustion(pre: Run, detail: Seq<char>, ts: i64, post: Run)
    requires
        pre.control.awaits_attempt(),
        pre.control.on_last_attempt(pre.limits),
        pre.failed(detail, ts, post),
    ensures
        pre.control.phase == Phase::Confirming ==> post.control.phase == Phase::Succeeded
            && post.spec_outcome().anchored == Some(false) && post.error.is_none(),
        pre.control.phase != Phase::Confirming ==> post.control.phase == Phase::Failed
            && post.error.is_some() && post.error->Some_0@ == detail,
{
}

/// A failure beyond mending in the validate or the anchor stage ends
/// the run as failed at once, whatever retries the stage has left: the
/// run asks for no backoff and no further attempt, only to be finished,
/// and carries the failure's reason as its error.
pub proof fn lemma_fatal_ends_run(pre: Run, detail: Seq<char>, ts: i64, post: Run)
    requires
        pre.control.awaits_attempt(),
        pre.control.phase != Phase::Confirming,
        pre.gave_up(detail, ts, post),
    ensures
        post.control.phase == Phase::Failed,
        post.control.spec_next_action(post.limits) == Action::Finish,
        post.error.is_some() && post.error->Some_0@ == detail,
        post.trail() == pre.trail().push(
            ev(ts, stage_name(pre.control.phase.spec_stage()), failure_message(detail), None),
        ),
{
}

/// A configuration error in the validate stage, such as a
/// configuration that selects no backend, fails the run at once: however
/// many retries the plan allows, the error's report is taken, the run has
/// failed with the error's message, and it asks for nothing more.
pub proof fn lemma_config_error_is_not_retried(pre: Run, e: PantherError, ts: i64, post: Run)
    requires
        pre.control.phase == Phase::Validating,
        !pre.control.sleeping,
        e is Config,
        pre.reported(Report::spec_of_error(e), ts, post),
    ensures
        pre.accepts(Report::spec_of_error(e)),
        post.control.phase == Phase::Failed,
        post.control.spec_next_action(post.limits) == Action::Finish,
        post.error.is_some() && post.error->Some_0@ == e.spec_detail()@,
        post.trail().len() == pre.trail().len() + 1,
{
}

/// A run that has succeeded holds the results and the attestation.
/// Where the plan asks for anchoring it also holds the transaction and
/// what became of the confirmation; where it does not, it holds neither.
pub proof fn lemma_succeeded_outcome(run: Run)
    requires
        run.wf(),
        run.control.phase == Phase::Succeeded,
    ensures
        run.spec_outcome().results.is_some(),
        run.spec_outcome().proof.is_some(),
        run.combined_hash.is_some(),
        run.combined_hash->Some_0@ == run.spec_outcome().proof->Some_0.combined_hash@,
        run.limits.anchor ==> run.spec_outcome().tx_hash.is_some()
            && run.spec_outcome().anchored.is_some(),
        !run.limits.anchor ==> run.spec_outcome().tx_hash.is_none()
            && run.spec_outcome().anchored.is_none(),
        run.error.is_none(),
{
}

} // verus!
