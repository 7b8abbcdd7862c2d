//! Stages, their retry and backoff policy, and the control state of a run.

use vstd::prelude::*;

verus! {

/// A named unit of orchestrated work.
#[derive(Clone, Copy, Debug, PartialEq, Eq, Structural)]
pub enum Stage {
    Validate,
    Seal,
    Anchor,
    Status,
}

/// Where a run stands.
#[derive(Clone, Copy, Debug, PartialEq, Eq, Structural)]
pub enum Phase {
    Validating,
    Attesting,
    Anchoring,
    Confirming,
    Succeeded,
    Failed,
}

/// What a caller sees of a run's progress.
#[derive(Clone, Copy, Debug, PartialEq, Eq, Structural)]
pub enum RunStatus {
    Running,
    Succeeded,
    Failed,
}

/// The timeouts and retry counts of a plan, with its defaults filled in.
#[derive(Clone, Copy, Debug, PartialEq, Eq, Structural)]
pub struct Limits {
    pub validate_ms: u64,
    pub anchor_ms: u64,
    pub status_ms: u64,
    pub validate_retries: u32,
    pub anchor_retries: u32,
    pub status_retries: u32,
    /// Whether the plan asks for the anchor and confirm stages.
    pub anchor: bool,
}

/// The control state of a run: its phase, the number of attempts of the
/// current stage that have failed, and whether it waits out a backoff.
#[derive(Clone, Copy, Debug, PartialEq, Eq, Structural)]
pub struct Control {
    pub phase: Phase,
    pub attempt: u32,
    pub sleeping: bool,
}

// ---------------------------------------------------------------------
// Backoff
// ---------------------------------------------------------------------

/// Two to the power of `attempt`, capped at sixteen.
pub open spec fn growth(attempt: u32) -> int {
    if attempt == 0 {
        1
    } else if attempt == 1 {
        2
    } else if attempt == 2 {
        4
    } else if attempt == 3 {
        8
    } else {
        16
    }
}

/// The first delay of a stage, in milliseconds.
pub open spec fn base_ms(stage: Stage) -> int {
    match stage {
        Stage::Validate => 200,
        Stage::Seal => 0,
        Stage::Anchor => 300,
        Stage::Status => 500,
    }
}

/// The longest delay of a stage, in milliseconds.
pub open spec fn cap_ms(stage: Stage) -> int {
    match stage {
        Stage::Validate => 2000,
        Stage::Seal => 0,
        Stage::Anchor => 3000,
        Stage::Status => 4000,
    }
}

/// The jitter of a stage: a fixed function of the attempt, not chance.
pub open spec fn jitter_ms(stage: Stage, attempt: u32) -> int {
    match stage {
        Stage::Validate => (attempt * 37) % 120,
        Stage::Seal => 0,
        Stage::Anchor => (attempt * 41) % 150,
        Stage::Status => (attempt * 47) % 200,
    }
}

/// The delay before the retry that follows failed attempt number
/// `attempt`, counted from zero.
pub open spec fn backoff_ms(stage: Stage, attempt: u32) -> int {
    let raw = base_ms(stage) * growth(attempt) + jitter_ms(stage, attempt);
    if raw < cap_ms(stage) {
        raw
    } else {
        cap_ms(stage)
    }
}

/// Computes the delay before the next retry of a stage.
pub fn backoff(stage: Stage, attempt: u32) -> (ms: u64)
    ensures
        ms == backoff_ms(stage, attempt),
        ms <= cap_ms(stage),
{
    let factor: u64 = if attempt == 0 {
        1
    } else if attempt == 1 {
        2
    } else if attempt == 2 {
        4
    } else if attempt == 3 {
        8
    } else {
        16
    };
    let a: u64 = attempt as u64;
    let (base, cap, jitter): (u64, u64, u64) = match stage {
        Stage::Validate => (200, 2000, (a * 37) % 120),
        Stage::Seal => (0, 0, 0),
        Stage::Anchor => (300, 3000, (a * 41) % 150),
        Stage::Status => (500, 4000, (a * 47) % 200),
    };
    let raw: u64 = base * factor + jitter;
    if raw < cap {
        raw
    } else {
        cap
    }
}

// ---------------------------------------------------------------------
// Control
// ---------------------------------------------------------------------

impl Phase {
    /// Whether the phase runs an operation that may be retried.
    pub open spec fn retries_work(self) -> bool {
        self == Phase::Validating || self == Phase::Anchoring || self == Phase::Confirming
    }

    /// Whether the run has ended.
    pub open spec fn is_terminal(self) -> bool {
        self == Phase::Succeeded || self == Phase::Failed
    }

    /// The stage whose work the phase does.
    pub open spec fn spec_stage(self) -> Stage {
        match self {
            Phase::Validating => Stage::Validate,
            Phase::Attesting => Stage::Seal,
            Phase::Anchoring => Stage::Anchor,
            _ => Stage::Status,
        }
    }

    /// What a caller sees of the phase.
    pub open spec fn spec_status(self) -> RunStatus {
        match self {
            Phase::Succeeded => RunStatus::Succeeded,
            Phase::Failed => RunStatus::Failed,
            _ => RunStatus::Running,
        }
    }

    /// The stage whose work the phase does.
    pub fn stage(self) -> (s: Stage)
        ensures
            s == self.spec_stage(),
    {
        match self {
            Phase::Validating => Stage::Validate,
            Phase::Attesting => Stage::Seal,
            Phase::Anchoring => Stage::Anchor,
            _ => Stage::Status,
        }
    }

    /// What a caller sees of the phase.
    pub fn status(self) -> (s: RunStatus)
        ensures
            s == self.spec_status(),
            (s != RunStatus::Running) == self.is_terminal(),
    {
        match self {
            Phase::Succeeded => RunStatus::Succeeded,
            Phase::Failed => RunStatus::Failed,
            _ => RunStatus::Running,
        }
    }
}

impl Limits {
    /// How often the work of a phase is tried again after a failure.
    pub open spec fn spec_retries(self, phase: Phase) -> u32 {
        match phase {
            Phase::Validating => self.validate_retries,
            Phase::Anchoring => self.anchor_retries,
            Phase::Confirming => self.status_retries,
            _ => 0,
        }
    }

    /// The deadline of one attempt of a phase, in milliseconds.
    pub open spec fn spec_timeout_ms(self, phase: Phase) -> u64 {
        match phase {
            Phase::Validating => self.validate_ms,
            Phase::Anchoring => self.anchor_ms,
            Phase::Confirming => self.status_ms,
            _ => 0,
        }
    }

    /// How often the work of a phase is tried again after a failure.
    pub fn retries(&self, phase: Phase) -> (r: u32)
        ensures
            r == self.spec_retries(phase),
    {
        match phase {
            Phase::Validating => self.validate_retries,
            Phase::Anchoring => self.anchor_retries,
            Phase::Confirming => self.status_retries,
            _ => 0,
        }
    }

    /// The deadline of one attempt of a phase, in milliseconds.
    pub fn timeout_ms(&self, phase: Phase) -> (r: u64)
        ensures
            r == self.spec_timeout_ms(phase),
    {
        match phase {
            Phase::Validating => self.validate_ms,
            Phase::Anchoring => self.anchor_ms,
            Phase::Confirming => self.status_ms,
            _ => 0,
        }
    }
}

impl Control {
    /// The state in which a stage begins: no attempt has failed yet.
    pub open spec fn at_start_of(phase: Phase) -> Control {
        Control { phase, attempt: 0, sleeping: false }
    }

    /// Whether the run waits for the result of an attempt.
    pub open spec fn awaits_attempt(self) -> bool {
        self.phase.retries_work() && !self.sleeping
    }

    /// Whether the run waits for a report that may say that its stage
    /// cannot be done: the result of an attempt, or the results text.
    pub open spec fn takes_fatal(self) -> bool {
        self.awaits_attempt() || self.phase == Phase::Attesting
    }

    /// Whether the attempt now under way is the last one allowed.
    pub open spec fn on_last_attempt(self, limits: Limits) -> bool {
        self.attempt >= limits.spec_retries(self.phase)
    }

    /// The state after the current stage's work has succeeded. Only
    /// forward: validate, attest, then anchor and confirm where the plan
    /// asks for them.
    pub open spec fn after_success(self, limits: Limits) -> Control {
        match self.phase {
            Phase::Validating => Control::at_start_of(Phase::Attesting),
            Phase::Attesting => if limits.anchor {
                Control::at_start_of(Phase::Anchoring)
            } else {
                Control::at_start_of(Phase::Succeeded)
            },
            Phase::Anchoring => Control::at_start_of(Phase::Confirming),
            Phase::Confirming => Control::at_start_of(Phase::Succeeded),
            _ => self,
        }
    }

    /// The state after an attempt has failed or run out of time. While
    /// retries are left the run backs off within the stage. A failure of
    /// the last attempt ends the run as failed, except in the confirm
    /// stage, where the run succeeds without a confirmation.
    pub open spec fn after_failure(self, limits: Limits) -> Control {
        if !self.awaits_attempt() {
            self
        } else if !self.on_last_attempt(limits) {
            Control { sleeping: true, ..self }
        } else if self.phase == Phase::Confirming {
            Control::at_start_of(Phase::Succeeded)
        } else {
            Control::at_start_of(Phase::Failed)
        }
    }

    /// The state after an attempt has failed in a way that no further
    /// attempt can mend: the stage ends at once, whatever retries are
    /// left, as it ends after the failure of its last attempt.
    pub open spec fn after_fatal(self) -> Control {
        if !self.takes_fatal() {
            self
        } else if self.phase == Phase::Confirming {
            Control::at_start_of(Phase::Succeeded)
        } else {
            Control::at_start_of(Phase::Failed)
        }
    }

    /// The state after a backoff has been waited out: the next attempt begins.
    pub open spec fn after_sleep(self) -> Control {
        if self.sleeping && self.attempt < u32::MAX {
            Control { attempt: (self.attempt + 1) as u32, sleeping: false, ..self }
        } else {
            self
        }
    }

    /// The state after `n` attempts in a row have failed, each backoff
    /// waited out.
    pub open spec fn after_failures(self, limits: Limits, n: nat) -> Control
        decreases n,
    {
        if n == 0 {
            self
        } else {
            self.after_failures(limits, (n - 1) as nat).after_failure(limits).after_sleep()
        }
    }

    /// The state after the current stage's work has succeeded.
    pub fn succeed(self, limits: &Limits) -> (c: Control)
        ensures
            c == self.after_success(*limits),
    {
        let phase = match self.phase {
            Phase::Validating => Phase::Attesting,
            Phase::Attesting => if limits.anchor {
                Phase::Anchoring
            } else {
                Phase::Succeeded
            },
            Phase::Anchoring => Phase::Confirming,
            Phase::Confirming => Phase::Succeeded,
            _ => {
                return self;
            },
        };
        Control { phase, attempt: 0, sleeping: false }
    }

    /// The state after an attempt has failed or run out of time.
    pub fn fail(self, limits: &Limits) -> (c: Control)
        ensures
            c == self.after_failure(*limits),
    {
        let works = self.phase == Phase::Validating || self.phase == Phase::Anchoring || self.phase
            == Phase::Confirming;
        if !works || self.sleeping {
            self
        } else if self.attempt < limits.retries(self.phase) {
            Control { phase: self.phase, attempt: self.attempt, sleeping: true }
        } else if self.phase == Phase::Confirming {
            Control { phase: Phase::Succeeded, attempt: 0, sleeping: false }
        } else {
            Control { phase: Phase::Failed, attempt: 0, sleeping: false }
        }
    }

    /// The state after an attempt has failed beyond mending.
    pub fn give_up(self) -> (c: Control)
        ensures
            c == self.after_fatal(),
    {
        let works = self.phase == Phase::Validating || self.phase == Phase::Anchoring || self.phase
            == Phase::Confirming;
        let takes = (works && !self.sleeping) || self.phase == Phase::Attesting;
        if !takes {
            self
        } else if self.phase == Phase::Confirming {
            Control { phase: Phase::Succeeded, attempt: 0, sleeping: false }
        } else {
            Control { phase: Phase::Failed, attempt: 0, sleeping: false }
        }
    }

    /// The state after a backoff has been waited out.
    pub fn wake(self) -> (c: Control)
        ensures
            c == self.after_sleep(),
    {
        if self.sleeping && self.attempt < u32::MAX {
            Control { phase: self.phase, attempt: self.attempt + 1, sleeping: false }
        } else {
            self
        }
    }
}

/// A stage that allows `r` retries makes exactly `r + 1` attempts
/// against work that always fails: after any `k <= r` failures the run
/// still stands in the stage, about to make attempt number `k + 1`, and
/// the failure of attempt number `r + 1` ends the stage.
pub proof fn lemma_retry_count(phase: Phase, limits: Limits, k: nat)
    requires
        phase.retries_work(),
        k <= limits.spec_retries(phase),
    ensures
        Control::at_start_of(phase).after_failures(limits, k) == (Control {
            phase,
            attempt: k as u32,
            sleeping: false,
        }),
        k < limits.spec_retries(phase) ==> Control::at_start_of(phase).after_failures(
            limits,
            k,
        ).after_failure(limits).phase == phase,
        k == limits.spec_retries(phase) ==> Control::at_start_of(phase).after_failures(
            limits,
            k,
        ).after_failure(limits).phase.is_terminal(),
    decreases k,
{
    if k > 0 {
        lemma_retry_count(phase, limits, (k - 1) as nat);
    }
}

/// The failure of a stage's last attempt ends the run as failed in the
/// validate and anchor stages, and as succeeded in the confirm stage.
pub proof fn lemma_terminal_policy(c: Control, limits: Limits)
    requires
        c.awaits_attempt(),
        c.on_last_attempt(limits),
    ensures
        c.phase == Phase::Validating ==> c.after_failure(limits).phase == Phase::Failed,
        c.phase == Phase::Anchoring ==> c.after_failure(limits).phase == Phase::Failed,
        c.phase == Phase::Confirming ==> c.after_failure(limits).phase == Phase::Succeeded,
{
}

/// A run only moves forward: no step leads from a later phase to an
/// earlier one, and an ended run stays as it is.
pub proof fn lemma_forward_only(c: Control, limits: Limits)
    ensures
        phase_rank(c.after_success(limits).phase) >= phase_rank(c.phase),
        phase_rank(c.after_failure(limits).phase) >= phase_rank(c.phase),
        phase_rank(c.after_fatal().phase) >= phase_rank(c.phase),
        phase_rank(c.after_sleep().phase) == phase_rank(c.phase),
        c.phase.is_terminal() ==> c.after_success(limits) == c && c.after_failure(limits) == c
            && c.after_fatal() == c,
{
}

/// A failure beyond mending is never retried: whatever retries the stage
/// has left, the run neither backs off nor stays in the stage. It ends
/// as the failure of the stage's last attempt would end it: failed in the
/// validate and anchor stages, succeeded in the confirm stage.
pub proof fn lemma_fatal_is_not_retried(c: Control, limits: Limits)
    requires
        c.takes_fatal(),
    ensures
        c.after_fatal().phase.is_terminal(),
        !c.after_fatal().sleeping,
        c.phase != Phase::Confirming ==> c.after_fatal().phase == Phase::Failed,
        c.phase == Phase::Confirming ==> c.after_fatal().phase == Phase::Succeeded,
        c.awaits_attempt() && c.on_last_attempt(limits) ==> c.after_fatal() == c.after_failure(
            limits,
        ),
{
}

/// The position of a phase in the order in which a run passes through them.
pub open spec fn phase_rank(phase: Phase) -> int {
    match phase {
        Phase::Validating => 0,
        Phase::Attesting => 1,
        Phase::Anchoring => 2,
        Phase::Confirming => 3,
        Phase::Succeeded => 4,
        Phase::Failed => 4,
    }
}


/// What whoever drives a run has to do next.
#[derive(Clone, Copy, Debug, PartialEq, Eq, Structural)]
pub enum Action {
    /// Run the validation fan-out, waiting no longer than the deadline.
    Validate { timeout_ms: u64 },
    /// Hand in the results of the validate stage as JSON text.
    Serialize,
    /// Submit the combined hash to the ledger.
    Anchor { timeout_ms: u64 },
    /// Ask the ledger whether it holds the combined hash.
    CheckStatus { timeout_ms: u64 },
    /// Wait before the next attempt.
    Sleep { ms: u64 },
    /// Nothing: the run has ended.
    Finish,
}

impl Control {
    /// The action that the state asks for.
    pub open spec fn spec_next_action(self, limits: Limits) -> Action {
        if self.sleeping {
            Action::Sleep { ms: backoff_ms(self.phase.spec_stage(), self.attempt) as u64 }
        } else {
            match self.phase {
                Phase::Validating => Action::Validate { timeout_ms: limits.validate_ms },
                Phase::Attesting => Action::Serialize,
                Phase::Anchoring => Action::Anchor { timeout_ms: limits.anchor_ms },
                Phase::Confirming => Action::CheckStatus { timeout_ms: limits.status_ms },
                _ => Action::Finish,
            }
        }
    }

    /// The action that the state asks for.
    pub fn next_action(self, limits: &Limits) -> (a: Action)
        ensures
            a == self.spec_next_action(*limits),
    {
        if self.sleeping {
            Action::Sleep { ms: backoff(self.phase.stage(), self.attempt) }
        } else {
            match self.phase {
                Phase::Validating => Action::Validate { timeout_ms: limits.validate_ms },
                Phase::Attesting => Action::Serialize,
                Phase::Anchoring => Action::Anchor { timeout_ms: limits.anchor_ms },
                Phase::Confirming => Action::CheckStatus { timeout_ms: limits.status_ms },
                _ => Action::Finish,
            }
        }
    }
}

} // verus!
