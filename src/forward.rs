use vstd::prelude::*;

verus! {

/// One direction of the relay.
#[derive(PartialEq, Eq, Structural, Debug, Clone, Copy)]
pub enum Direction {
    /// From process input to the endpoint.
    InputToEndpoint,
    /// From the endpoint to process output.
    EndpointToOutput,
}

/// What one relay step in one direction came to.
#[derive(PartialEq, Eq, Structural, Debug, Clone, Copy)]
pub enum RelayOutcome {
    /// A message was read, written to the other side and flushed.
    Relayed,
    /// The source stream ended.
    Closed,
}

/// The forwarding loop: running, with the direction whose turn it is, or
/// terminated.
#[derive(PartialEq, Eq, Structural, Debug, Clone, Copy)]
pub enum ForwardState {
    Running { next: Direction },
    Terminated,
}

impl Direction {
    pub open spec fn other_spec(self) -> Direction {
        match self {
            Direction::InputToEndpoint => Direction::EndpointToOutput,
            Direction::EndpointToOutput => Direction::InputToEndpoint,
        }
    }

    /// The opposite direction.
    pub fn other(self) -> (r: Direction)
        ensures
            r == self.other_spec(),
    {
        match self {
            Direction::InputToEndpoint => Direction::EndpointToOutput,
            Direction::EndpointToOutput => Direction::InputToEndpoint,
        }
    }
}

impl ForwardState {
    /// The loop starts running, with process input first.
    pub fn start() -> (r: ForwardState)
        ensures
            r == (ForwardState::Running { next: Direction::InputToEndpoint }),
    {
        ForwardState::Running { next: Direction::InputToEndpoint }
    }

    /// A relayed message hands the turn to the other direction; a closed source
    /// ends the loop; an ended loop stays ended.
    pub open spec fn after_spec(self, outcome: RelayOutcome) -> ForwardState {
        match self {
            ForwardState::Running { next } => match outcome {
                RelayOutcome::Relayed => ForwardState::Running { next: next.other_spec() },
                RelayOutcome::Closed => ForwardState::Terminated,
            },
            ForwardState::Terminated => ForwardState::Terminated,
        }
    }

    /// The state that follows one relay step.
    pub fn after(self, outcome: RelayOutcome) -> (r: ForwardState)
        ensures
            r == self.after_spec(outcome),
    {
        match self {
            ForwardState::Running { next } => match outcome {
                RelayOutcome::Relayed => ForwardState::Running { next: next.other() },
                RelayOutcome::Closed => ForwardState::Terminated,
            },
            ForwardState::Terminated => ForwardState::Terminated,
        }
    }
}

/// The state reached from `state` after the given relay outcomes, in order.
pub open spec fn run(state: ForwardState, outcomes: Seq<RelayOutcome>) -> ForwardState
    decreases outcomes.len(),
{
    if outcomes.len() == 0 {
        state
    } else {
        run(state, outcomes.drop_last()).after_spec(outcomes.last())
    }
}

/// After `n` relayed messages from the start, the loop is still running and the
/// turn is process input's exactly when `n` is even: the directions alternate
/// strictly, one message each.
pub proof fn lemma_strict_alternation(n: nat)
    ensures
        run(
            ForwardState::Running { next: Direction::InputToEndpoint },
            Seq::new(n, |i: int| RelayOutcome::Relayed),
        ) == (ForwardState::Running {
            next: if n % 2 == 0 {
                Direction::InputToEndpoint
            } else {
                Direction::EndpointToOutput
            },
        }),
    decreases n,
{
    if n > 0 {
        lemma_strict_alternation((n - 1) as nat);
        assert(Seq::new(n, |i: int| RelayOutcome::Relayed).drop_last() =~= Seq::new(
            (n - 1) as nat,
            |i: int| RelayOutcome::Relayed,
        ));
    }
}

/// Once either source closes, the loop is terminated and stays terminated,
/// whatever the later outcomes.
pub proof fn lemma_closure_terminates(
    state: ForwardState,
    before: Seq<RelayOutcome>,
    after: Seq<RelayOutcome>,
)
    ensures
        run(state, before.push(RelayOutcome::Closed) + after) == ForwardState::Terminated,
    decreases after.len(),
{
    let all = before.push(RelayOutcome::Closed) + after;
    if after.len() == 0 {
        assert(all =~= before.push(RelayOutcome::Closed));
        assert(all.drop_last() =~= before);
    } else {
        lemma_closure_terminates(state, before, after.drop_last());
        assert(all.drop_last() =~= before.push(RelayOutcome::Closed) + after.drop_last());
    }
}

} // verus!
