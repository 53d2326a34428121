use vstd::prelude::*;

verus! {

/// Where the research loop stands.
#[derive(Debug, Clone, Copy, PartialEq, Eq, Structural)]
pub enum AgentPhase {
    Idle,
    Planning,
    Gathering,
    Synthesizing,
    Reviewing,
    Done,
    Failed,
}

/// The phase changes that the loop may make: the research cycle
/// `Idle -> Planning -> Gathering -> Synthesizing -> Reviewing`, a review
/// that sends the loop back to `Planning` or finishes it in `Done`, and a
/// failure, which may happen from any phase.
pub open spec fn allowed_transition(from: AgentPhase, to: AgentPhase) -> bool {
    ||| to == AgentPhase::Failed
    ||| (from == AgentPhase::Idle && to == AgentPhase::Planning)
    ||| (from == AgentPhase::Planning && to == AgentPhase::Gathering)
    ||| (from == AgentPhase::Gathering && to == AgentPhase::Synthesizing)
    ||| (from == AgentPhase::Synthesizing && to == AgentPhase::Reviewing)
    ||| (from == AgentPhase::Reviewing && to == AgentPhase::Planning)
    ||| (from == AgentPhase::Reviewing && to == AgentPhase::Done)
}

/// The name of a phase as it is printed in messages.
pub open spec fn phase_name(p: AgentPhase) -> Seq<char> {
    match p {
        AgentPhase::Idle => "Idle"@,
        AgentPhase::Planning => "Planning"@,
        AgentPhase::Gathering => "Gathering"@,
        AgentPhase::Synthesizing => "Synthesizing"@,
        AgentPhase::Reviewing => "Reviewing"@,
        AgentPhase::Done => "Done"@,
        AgentPhase::Failed => "Failed"@,
    }
}

/// The message recorded when a phase change is refused.
pub open spec fn transition_error_message(from: AgentPhase, to: AgentPhase) -> Seq<char> {
    "invalid transition: "@ + phase_name(from) + " -> "@ + phase_name(to)
}

impl AgentPhase {
    pub fn name(&self) -> (s: &'static str)
        ensures
            s@ == phase_name(*self),
    {
        match self {
            AgentPhase::Idle => {
                proof { reveal_strlit("Idle"); }
                "Idle"
            },
            AgentPhase::Planning => {
                proof { reveal_strlit("Planning"); }
                "Planning"
            },
            AgentPhase::Gathering => {
                proof { reveal_strlit("Gathering"); }
                "Gathering"
            },
            AgentPhase::Synthesizing => {
                proof { reveal_strlit("Synthesizing"); }
                "Synthesizing"
            },
            AgentPhase::Reviewing => {
                proof { reveal_strlit("Reviewing"); }
                "Reviewing"
            },
            AgentPhase::Done => {
                proof { reveal_strlit("Done"); }
                "Done"
            },
            AgentPhase::Failed => {
                proof { reveal_strlit("Failed"); }
                "Failed"
            },
        }
    }
}

/// Whether `from -> to` is one of the phase changes the loop may make.
pub fn is_allowed_transition(from: AgentPhase, to: AgentPhase) -> (b: bool)
    ensures
        b == allowed_transition(from, to),
{
    match (from, to) {
        (_, AgentPhase::Failed) => true,
        (AgentPhase::Idle, AgentPhase::Planning) => true,
        (AgentPhase::Planning, AgentPhase::Gathering) => true,
        (AgentPhase::Gathering, AgentPhase::Synthesizing) => true,
        (AgentPhase::Synthesizing, AgentPhase::Reviewing) => true,
        (AgentPhase::Reviewing, AgentPhase::Planning) => true,
        (AgentPhase::Reviewing, AgentPhase::Done) => true,
        _ => false,
    }
}


/// Budgets are counted in thousandths of a budget unit, so that a budget
/// such as `24.5` is held exactly as `24_500`.
pub const BUDGET_SCALE: i64 = 1000;

/// The state that the research loop makes its decisions on.
#[derive(Debug, Clone)]
pub struct AgentState {
    phase: AgentPhase,
    pub step: usize,
    pub max_steps: usize,
    /// What is left of the budget, in thousandths of a unit.
    pub budget_remaining: i64,
    pub last_error: Option<String>,
}

/// The model of an [`AgentState`]: its fields, with the error text as a
/// sequence of characters.
pub struct AgentStateView {
    pub phase: AgentPhase,
    pub step: nat,
    pub max_steps: nat,
    pub budget_remaining: int,
    pub last_error: Option<Seq<char>>,
}

impl AgentStateView {
    /// The loop has used up its steps or its budget.
    pub open spec fn is_exhausted(self) -> bool {
        self.step >= self.max_steps || self.budget_remaining <= 0
    }
}

pub open spec fn opt_string_view(o: Option<String>) -> Option<Seq<char>> {
    match o {
        Some(s) => Some(s@),
        None => None,
    }
}

impl View for AgentState {
    type V = AgentStateView;

    closed spec fn view(&self) -> AgentStateView {
        AgentStateView {
            phase: self.phase,
            step: self.step as nat,
            max_steps: self.max_steps as nat,
            budget_remaining: self.budget_remaining as int,
            last_error: opt_string_view(self.last_error),
        }
    }
}

impl AgentState {
    /// A fresh state: idle, at step zero, with the whole budget left.
    pub fn new(max_steps: usize, budget: i64) -> (s: Self)
        ensures
            s@ == (AgentStateView {
                phase: AgentPhase::Idle,
                step: 0,
                max_steps: max_steps as nat,
                budget_remaining: budget as int,
                last_error: None,
            }),
    {
        AgentState { phase: AgentPhase::Idle, step: 0, max_steps, budget_remaining: budget, last_error: None }
    }

    /// A state with every field given, as a saved checkpoint holds it.
    pub fn from_parts(
        phase: AgentPhase,
        step: usize,
        max_steps: usize,
        budget_remaining: i64,
        last_error: Option<String>,
    ) -> (s: Self)
        ensures
            s@ == (AgentStateView {
                phase,
                step: step as nat,
                max_steps: max_steps as nat,
                budget_remaining: budget_remaining as int,
                last_error: opt_string_view(last_error),
            }),
    {
        AgentState { phase, step, max_steps, budget_remaining, last_error }
    }

    /// The counters of the model fit their machine types.
    pub proof fn lemma_bounds(&self)
        ensures
            self@.step <= usize::MAX,
            self@.max_steps <= usize::MAX,
            i64::MIN <= self@.budget_remaining <= i64::MAX,
    {
    }

    /// A copy of this state.
    pub fn duplicate(&self) -> (s: Self)
        ensures
            s@ == self@,
    {
        let last_error = match &self.last_error {
            Some(e) => Some(e.clone()),
            None => None,
        };
        AgentState {
            phase: self.phase,
            step: self.step,
            max_steps: self.max_steps,
            budget_remaining: self.budget_remaining,
            last_error,
        }
    }

    pub fn phase(&self) -> (p: &AgentPhase)
        ensures
            *p == self@.phase,
    {
        &self.phase
    }

    pub fn step(&self) -> (n: usize)
        ensures
            n == self@.step,
    {
        self.step
    }

    pub fn max_steps(&self) -> (n: usize)
        ensures
            n == self@.max_steps,
    {
        self.max_steps
    }

    pub fn budget_remaining(&self) -> (b: i64)
        ensures
            b == self@.budget_remaining,
    {
        self.budget_remaining
    }

    /// Moves to `next` if the phase graph allows it; otherwise records the
    /// refusal in `last_error` and returns it, leaving the phase as it was.
    pub fn transition(&mut self, next: AgentPhase) -> (r: Result<(), String>)
        ensures
            r is Ok <==> allowed_transition(old(self)@.phase, next),
            r is Ok ==> final(self)@ == (AgentStateView { phase: next, ..old(self)@ }),
            r matches Err(e) ==> {
                &&& e@ == transition_error_message(old(self)@.phase, next)
                &&& final(self)@ == (AgentStateView { last_error: Some(e@), ..old(self)@ })
            },
    {
        if is_allowed_transition(self.phase, next) {
            self.phase = next;
            Ok(())
        } else {
            let mut err = String::from_str("invalid transition: ");
            err.append(self.phase.name());
            err.append(" -> ");
            err.append(next.name());
            proof {
                reveal_strlit("invalid transition: ");
                reveal_strlit(" -> ");
            }
            self.last_error = Some(err.clone());
            Err(err)
        }
    }

    pub fn increment_step(&mut self)
        requires
            old(self)@.step < usize::MAX,
        ensures
            final(self)@ == (AgentStateView { step: old(self)@.step + 1, ..old(self)@ }),
    {
        self.step = self.step + 1;
    }

    /// Takes `amount` from the budget if that much is left, and says whether
    /// it did.
    pub fn spend_budget(&mut self, amount: i64) -> (spent: bool)
        requires
            old(self)@.budget_remaining >= amount ==> old(self)@.budget_remaining - amount
                <= i64::MAX,
        ensures
            spent == (old(self)@.budget_remaining >= amount),
            spent ==> final(self)@ == (AgentStateView {
                budget_remaining: old(self)@.budget_remaining - amount,
                ..old(self)@
            }),
            !spent ==> final(self)@ == old(self)@,
    {
        if self.budget_remaining >= amount {
            self.budget_remaining = self.budget_remaining - amount;
            true
        } else {
            false
        }
    }

    pub fn is_exhausted(&self) -> (b: bool)
        ensures
            b == self@.is_exhausted(),
    {
        self.step >= self.max_steps || self.budget_remaining <= 0
    }

    /// Records `message` and moves to `Failed`, whatever the phase was.
    pub fn fail(&mut self, message: &str)
        ensures
            final(self)@ == (AgentStateView {
                phase: AgentPhase::Failed,
                last_error: Some(message@),
                ..old(self)@
            }),
    {
        self.last_error = Some(String::from_str(message));
        self.phase = AgentPhase::Failed;
    }
}


/// No phase change leads back to `Idle`: a loop that has started never
/// becomes idle again.
pub proof fn lemma_idle_is_never_reentered(from: AgentPhase)
    ensures
        !allowed_transition(from, AgentPhase::Idle),
{
}

/// A failure may be recorded from any phase.
pub proof fn lemma_failure_always_allowed(from: AgentPhase)
    ensures
        allowed_transition(from, AgentPhase::Failed),
{
}

/// A run is done only after a review.
pub proof fn lemma_done_only_after_review(from: AgentPhase)
    requires
        allowed_transition(from, AgentPhase::Done),
    ensures
        from == AgentPhase::Reviewing,
{
}

/// A finished run stays finished unless it fails: from `Done` the only
/// allowed change is to `Failed`, and from `Failed` only `Failed` again.
pub proof fn lemma_settled_phases_only_fail(from: AgentPhase, to: AgentPhase)
    requires
        from == AgentPhase::Done || from == AgentPhase::Failed,
        allowed_transition(from, to),
    ensures
        to == AgentPhase::Failed,
{
}

/// Exhaustion lasts: once the steps or the budget are used up, counting
/// another step or spending more keeps them used up.
pub proof fn lemma_exhaustion_persists(s: AgentStateView, amount: int)
    requires
        s.is_exhausted(),
        amount >= 0,
    ensures
        (AgentStateView { step: s.step + 1, ..s }).is_exhausted(),
        (AgentStateView { budget_remaining: s.budget_remaining - amount, ..s }).is_exhausted(),
{
}


/// What each phase may move to: one step along the research cycle, or a
/// failure. From `Planning` only `Gathering`, from `Gathering` only
/// `Synthesizing`, from `Synthesizing` only `Reviewing`, from `Reviewing`
/// back to `Planning` or on to `Done`; `Done` and `Failed` only fail.
pub proof fn lemma_transition_targets(from: AgentPhase, to: AgentPhase)
    ensures
        from == AgentPhase::Idle ==> (allowed_transition(from, to) <==> (to == AgentPhase::Planning
            || to == AgentPhase::Failed)),
        from == AgentPhase::Planning ==> (allowed_transition(from, to) <==> (to == AgentPhase::Gathering
            || to == AgentPhase::Failed)),
        from == AgentPhase::Gathering ==> (allowed_transition(from, to) <==> (to
            == AgentPhase::Synthesizing || to == AgentPhase::Failed)),
        from == AgentPhase::Synthesizing ==> (allowed_transition(from, to) <==> (to
            == AgentPhase::Reviewing || to == AgentPhase::Failed)),
        from == AgentPhase::Reviewing ==> (allowed_transition(from, to) <==> (to == AgentPhase::Planning
            || to == AgentPhase::Done || to == AgentPhase::Failed)),
        from == AgentPhase::Done ==> (allowed_transition(from, to) <==> to == AgentPhase::Failed),
        from == AgentPhase::Failed ==> (allowed_transition(from, to) <==> to == AgentPhase::Failed),
{
}

/// No step of the cycle is skipped: gathering is entered only from
/// planning, synthesizing only from gathering, reviewing only from
/// synthesizing, and planning only at the start or after a review.
pub proof fn lemma_no_step_is_skipped(from: AgentPhase)
    ensures
        allowed_transition(from, AgentPhase::Gathering) ==> from == AgentPhase::Planning,
        allowed_transition(from, AgentPhase::Synthesizing) ==> from == AgentPhase::Gathering,
        allowed_transition(from, AgentPhase::Reviewing) ==> from == AgentPhase::Synthesizing,
        allowed_transition(from, AgentPhase::Planning) ==> from == AgentPhase::Idle || from
            == AgentPhase::Reviewing,
{
}

} // verus!
