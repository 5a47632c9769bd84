//! The function lifecycle: Uninitialized, WarmSnapshot, Running, Suspended,
//! with a fixed set of allowed transitions.

use vstd::prelude::*;

use crate::clock::{duration_as_millis, instant_elapsed, instant_now};
use crate::error::StateTransitionError;
use crate::types::FunctionId;

verus! {

/// Lifecycle states of a function.
#[derive(Debug, Clone, Copy, PartialEq, Eq, Structural)]
pub enum FunctionState {
    /// Registered but not yet initialized.
    Uninitialized,
    /// A warm snapshot is ready for fast restore.
    WarmSnapshot,
    /// Running and serving requests.
    Running,
    /// Paused; can be resumed.
    Suspended,
}

/// The allowed transitions of the lifecycle.
pub open spec fn valid_transition(from: FunctionState, to: FunctionState) -> bool {
    match (from, to) {
        (FunctionState::Uninitialized, FunctionState::WarmSnapshot) => true,
        (FunctionState::Uninitialized, FunctionState::Running) => true,
        (FunctionState::WarmSnapshot, FunctionState::Running) => true,
        (FunctionState::WarmSnapshot, FunctionState::Uninitialized) => true,
        (FunctionState::Running, FunctionState::Suspended) => true,
        (FunctionState::Running, FunctionState::WarmSnapshot) => true,
        (FunctionState::Suspended, FunctionState::Running) => true,
        (FunctionState::Suspended, FunctionState::WarmSnapshot) => true,
        (FunctionState::Suspended, FunctionState::Uninitialized) => true,
        _ => false,
    }
}

/// The name of a state, as used in messages.
pub open spec fn state_name(s: FunctionState) -> Seq<char> {
    match s {
        FunctionState::Uninitialized => "Uninitialized"@,
        FunctionState::WarmSnapshot => "WarmSnapshot"@,
        FunctionState::Running => "Running"@,
        FunctionState::Suspended => "Suspended"@,
    }
}

/// States in which a function can serve an invocation.
pub open spec fn is_invokable_state(s: FunctionState) -> bool {
    s == FunctionState::Running || s == FunctionState::WarmSnapshot
}

impl FunctionState {
    /// The state's name.
    pub fn name(&self) -> (r: &'static str)
        ensures
            r@ == state_name(*self),
    {
        proof {
            reveal_strlit("Uninitialized");
            reveal_strlit("WarmSnapshot");
            reveal_strlit("Running");
            reveal_strlit("Suspended");
        }
        match self {
            FunctionState::Uninitialized => "Uninitialized",
            FunctionState::WarmSnapshot => "WarmSnapshot",
            FunctionState::Running => "Running",
            FunctionState::Suspended => "Suspended",
        }
    }

    /// Whether the lifecycle allows moving from this state to `target`.
    pub fn can_transition_to(&self, target: FunctionState) -> (r: bool)
        ensures
            r == valid_transition(*self, target),
    {
        match (*self, target) {
            (FunctionState::Uninitialized, FunctionState::WarmSnapshot) => true,
            (FunctionState::Uninitialized, FunctionState::Running) => true,
            (FunctionState::WarmSnapshot, FunctionState::Running) => true,
            (FunctionState::WarmSnapshot, FunctionState::Uninitialized) => true,
            (FunctionState::Running, FunctionState::Suspended) => true,
            (FunctionState::Running, FunctionState::WarmSnapshot) => true,
            (FunctionState::Suspended, FunctionState::Running) => true,
            (FunctionState::Suspended, FunctionState::WarmSnapshot) => true,
            (FunctionState::Suspended, FunctionState::Uninitialized) => true,
            _ => false,
        }
    }
}

/// One attempted transition to `target`: allowed, it moves `before` to
/// `target` and counts one more transition; refused, it changes nothing.
pub open spec fn transition_step(before: StateMachineView, target: FunctionState, after: StateMachineView) -> bool {
    if valid_transition(before.state, target) {
        &&& after.state == target
        &&& after.transition_count == before.transition_count + 1
        &&& after.function_id == before.function_id
    } else {
        after == before
    }
}

/// How many of the first `n` attempts in a run of transitions were allowed.
pub open spec fn allowed_count(views: Seq<StateMachineView>, targets: Seq<FunctionState>, n: nat) -> nat
    decreases n,
{
    if n == 0 {
        0
    } else if valid_transition(views[n - 1].state, targets[n - 1]) {
        allowed_count(views, targets, (n - 1) as nat) + 1
    } else {
        allowed_count(views, targets, (n - 1) as nat)
    }
}

/// The state after the first `n` attempts of a run: the target of the last
/// allowed one, or the starting state when none was allowed.
pub open spec fn state_after_run(views: Seq<StateMachineView>, targets: Seq<FunctionState>, n: nat) -> FunctionState
    decreases n,
{
    if n == 0 {
        views[0].state
    } else if valid_transition(views[n - 1].state, targets[n - 1]) {
        targets[n - 1]
    } else {
        state_after_run(views, targets, (n - 1) as nat)
    }
}

/// Lifecycle of one function: its state, the time of its last transition
/// and how many transitions it has made.
#[derive(Debug)]
pub struct FunctionStateMachine {
    function_id: FunctionId,
    current_state: FunctionState,
    last_transition: std::time::Instant,
    transition_count: u64,
}

/// What the state machine holds apart from the clock.
pub struct StateMachineView {
    pub function_id: Seq<char>,
    pub state: FunctionState,
    pub transition_count: u64,
}

impl View for FunctionStateMachine {
    type V = StateMachineView;

    closed spec fn view(&self) -> StateMachineView {
        StateMachineView {
            function_id: self.function_id@,
            state: self.current_state,
            transition_count: self.transition_count,
        }
    }
}

impl Clone for FunctionStateMachine {
    fn clone(&self) -> (r: Self)
        ensures
            r@ == self@,
    {
        FunctionStateMachine {
            function_id: self.function_id.clone(),
            current_state: self.current_state,
            last_transition: self.last_transition,
            transition_count: self.transition_count,
        }
    }
}

impl FunctionStateMachine {
    /// A new machine in `Uninitialized` with no transitions.
    pub fn new(function_id: FunctionId) -> (r: FunctionStateMachine)
        ensures
            r@.function_id == function_id@,
            r@.state == FunctionState::Uninitialized,
            r@.transition_count == 0,
    {
        FunctionStateMachine {
            function_id,
            current_state: FunctionState::Uninitialized,
            last_transition: instant_now(),
            transition_count: 0,
        }
    }

    /// The current state.
    pub fn state(&self) -> (r: FunctionState)
        ensures
            r == self@.state,
    {
        self.current_state
    }

    /// The function this machine belongs to.
    pub fn function_id(&self) -> (r: &FunctionId)
        ensures
            r@ == self@.function_id,
    {
        &self.function_id
    }

    /// Time since the last transition, read from the clock.
    pub fn time_in_current_state(&self) -> std::time::Duration {
        instant_elapsed(&self.last_transition)
    }

    /// Number of transitions made so far.
    pub fn transition_count(&self) -> (r: u64)
        ensures
            r == self@.transition_count,
    {
        self.transition_count
    }

    /// Move to `target` if the lifecycle allows it; otherwise leave the
    /// machine unchanged and report the refused transition.
    pub fn transition_to(&mut self, target: FunctionState) -> (res: Result<(), StateTransitionError>)
        requires
            old(self)@.transition_count < u64::MAX,
        ensures
            final(self)@.function_id == old(self)@.function_id,
            res is Ok <==> valid_transition(old(self)@.state, target),
            res is Ok ==> final(self)@.state == target && final(self)@.transition_count
                == old(self)@.transition_count + 1,
            res is Err ==> *final(self) == *old(self),
            transition_step(old(self)@, target, final(self)@),
            match res {
                Err(StateTransitionError::InvalidTransition { function_id, from, to }) => function_id@
                    == old(self)@.function_id && from@ == state_name(old(self)@.state) && to@
                    == state_name(target),
                Err(_) => false,
                Ok(_) => true,
            },
    {
        if !self.current_state.can_transition_to(target) {
            return Err(
                StateTransitionError::InvalidTransition {
                    function_id: self.function_id.clone(),
                    from: self.current_state.name(),
                    to: target.name(),
                },
            );
        }
        self.current_state = target;
        self.last_transition = instant_now();
        self.transition_count = self.transition_count + 1;
        Ok(())
    }

    /// Whether the function can serve an invocation (Running or WarmSnapshot).
    pub fn is_invokable(&self) -> (r: bool)
        ensures
            r == is_invokable_state(self@.state),
    {
        match self.current_state {
            FunctionState::Running | FunctionState::WarmSnapshot => true,
            _ => false,
        }
    }

    /// Whether a warm snapshot is available.
    pub fn has_warm_snapshot(&self) -> (r: bool)
        ensures
            r == (self@.state == FunctionState::WarmSnapshot),
    {
        match self.current_state {
            FunctionState::WarmSnapshot => true,
            _ => false,
        }
    }
}

/// Metrics of one state machine.
#[derive(Debug, Clone)]
pub struct StateMachineMetrics {
    pub function_id: String,
    pub current_state: String,
    pub time_in_state_ms: u64,
    pub transition_count: u64,
}

impl StateMachineMetrics {
    /// Metrics of `sm`; the time in state is read from the clock and
    /// truncated to 64 bits.
    pub fn from_state_machine(sm: &FunctionStateMachine) -> (r: StateMachineMetrics)
        ensures
            r.function_id@ == sm@.function_id,
            r.current_state@ == state_name(sm@.state),
            r.transition_count == sm@.transition_count,
    {
        let elapsed = sm.time_in_current_state();
        let ms = duration_as_millis(&elapsed);
        StateMachineMetrics {
            function_id: sm.function_id().as_str().to_string(),
            current_state: sm.state().name().to_string(),
            time_in_state_ms: ms as u64,
            transition_count: sm.transition_count(),
        }
    }
}


/// Over a run of attempted transitions, each as `transition_to` makes it,
/// the transition count grows by exactly the number of allowed attempts
/// (refused ones are never counted), the function stays the same, the final
/// state is the target of the last allowed attempt (the starting state when
/// none was allowed), and every change of state along the way is an allowed
/// transition.
pub proof fn law_transition_count(views: Seq<StateMachineView>, targets: Seq<FunctionState>)
    requires
        views.len() == targets.len() + 1,
        forall|i: int| 0 <= i < targets.len() ==> #[trigger] transition_step(views[i], targets[i], views[i + 1]),
    ensures
        views.last().transition_count == views[0].transition_count + allowed_count(views, targets, targets.len()),
        views.last().function_id == views[0].function_id,
        views.last().state == state_after_run(views, targets, targets.len()),
        forall|i: int|
            0 <= i < targets.len() && views[i].state != views[i + 1].state ==> #[trigger] valid_transition(
                views[i].state,
                views[i + 1].state,
            ),
    decreases targets.len(),
{
    if targets.len() > 0 {
        let n = targets.len() - 1;
        let vs = views.drop_last();
        let ts = targets.drop_last();
        assert forall|i: int| 0 <= i < ts.len() implies #[trigger] transition_step(vs[i], ts[i], vs[i + 1]) by {
            assert(transition_step(views[i], targets[i], views[i + 1]));
        }
        law_transition_count(vs, ts);
        lemma_allowed_count_prefix(views, targets, vs, ts, n as nat);
        assert(transition_step(views[n], targets[n], views[n + 1]));
    }
    assert forall|i: int|
        0 <= i < targets.len() && views[i].state != views[i + 1].state implies #[trigger] valid_transition(
            views[i].state,
            views[i + 1].state,
        ) by {
        assert(transition_step(views[i], targets[i], views[i + 1]));
    }
}

/// Counting over a prefix of a run, and the state it ends in, only look at
/// that prefix.
proof fn lemma_allowed_count_prefix(
    views: Seq<StateMachineView>,
    targets: Seq<FunctionState>,
    vs: Seq<StateMachineView>,
    ts: Seq<FunctionState>,
    n: nat,
)
    requires
        n <= ts.len(),
        ts.len() <= targets.len(),
        ts.len() < vs.len() <= views.len(),
        forall|i: int| 0 <= i < ts.len() ==> #[trigger] ts[i] == targets[i],
        forall|i: int| 0 <= i < vs.len() ==> #[trigger] vs[i] == views[i],
    ensures
        allowed_count(vs, ts, n) == allowed_count(views, targets, n),
        state_after_run(vs, ts, n) == state_after_run(views, targets, n),
    decreases n,
{
    if n > 0 {
        assert(ts[n - 1] == targets[n - 1]);
        assert(vs[n - 1] == views[n - 1]);
        lemma_allowed_count_prefix(views, targets, vs, ts, (n - 1) as nat);
    }
}

/// No state moves to itself: every allowed transition changes the state.
pub proof fn law_no_self_transition(s: FunctionState)
    ensures
        !valid_transition(s, s),
{
}

/// A function can only be suspended while it is running.
pub proof fn law_suspend_only_from_running(from: FunctionState)
    requires
        valid_transition(from, FunctionState::Suspended),
    ensures
        from == FunctionState::Running,
{
}

/// No state is a dead end: from each state some transition is allowed.
pub proof fn law_every_state_can_move(s: FunctionState)
    ensures
        exists|t: FunctionState| #[trigger] valid_transition(s, t),
{
    match s {
        FunctionState::Uninitialized => assert(valid_transition(s, FunctionState::Running)),
        FunctionState::WarmSnapshot => assert(valid_transition(s, FunctionState::Running)),
        FunctionState::Running => assert(valid_transition(s, FunctionState::Suspended)),
        FunctionState::Suspended => assert(valid_transition(s, FunctionState::Running)),
    }
}

/// Every state can be reached from `Uninitialized` in at most two allowed
/// steps.
pub proof fn law_every_state_reachable(s: FunctionState)
    ensures
        s == FunctionState::Uninitialized
            || valid_transition(FunctionState::Uninitialized, s)
            || exists|m: FunctionState| #[trigger] valid_transition(FunctionState::Uninitialized, m) && valid_transition(m, s),
{
    if s == FunctionState::Suspended {
        assert(valid_transition(FunctionState::Uninitialized, FunctionState::Running) && valid_transition(FunctionState::Running, s));
    }
}

/// The lifecycle's transitions, pair by pair: allowed are Uninitialized to
/// WarmSnapshot or Running; WarmSnapshot to Running or Uninitialized;
/// Running to Suspended or WarmSnapshot; Suspended to Running, WarmSnapshot
/// or Uninitialized. Every other pair, each state to itself included, is
/// refused.
pub proof fn law_transition_table()
    ensures
        valid_transition(FunctionState::Uninitialized, FunctionState::WarmSnapshot),
        valid_transition(FunctionState::Uninitialized, FunctionState::Running),
        valid_transition(FunctionState::WarmSnapshot, FunctionState::Running),
        valid_transition(FunctionState::WarmSnapshot, FunctionState::Uninitialized),
        valid_transition(FunctionState::Running, FunctionState::Suspended),
        valid_transition(FunctionState::Running, FunctionState::WarmSnapshot),
        valid_transition(FunctionState::Suspended, FunctionState::Running),
        valid_transition(FunctionState::Suspended, FunctionState::WarmSnapshot),
        valid_transition(FunctionState::Suspended, FunctionState::Uninitialized),
        !valid_transition(FunctionState::Uninitialized, FunctionState::Uninitialized),
        !valid_transition(FunctionState::Uninitialized, FunctionState::Suspended),
        !valid_transition(FunctionState::WarmSnapshot, FunctionState::WarmSnapshot),
        !valid_transition(FunctionState::WarmSnapshot, FunctionState::Suspended),
        !valid_transition(FunctionState::Running, FunctionState::Running),
        !valid_transition(FunctionState::Running, FunctionState::Uninitialized),
        !valid_transition(FunctionState::Suspended, FunctionState::Suspended),
        forall|a: FunctionState, b: FunctionState| #[trigger] valid_transition(a, b) ==> a != b,
{
}

/// The names of the states, as messages and metrics show them.
pub proof fn law_state_names()
    ensures
        state_name(FunctionState::Uninitialized) == "Uninitialized"@,
        state_name(FunctionState::WarmSnapshot) == "WarmSnapshot"@,
        state_name(FunctionState::Running) == "Running"@,
        state_name(FunctionState::Suspended) == "Suspended"@,
{
}

} // verus!
