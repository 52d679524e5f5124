//! Sequencing of one quantum round. The round is a state machine: each state
//! names the operation to perform on the qubit next, and the operation's
//! outcome, handed back as an event, moves the round on. The sender acts
//! first, then the eavesdropper if it intercepts, then the receiver; no state
//! is entered twice.

use crate::protocol::QExecutionResult;
use vstd::prelude::*;

verus! {

/// How far a round has come, with what was recorded on the way.
#[derive(Clone, Copy, Debug, PartialEq, Eq)]
pub enum RoundState {
    /// Nothing has happened yet.
    Start,
    /// The sender prepared a qubit that stands for `alice_value`.
    Prepared { alice_value: bool },
    /// The sender encoded the qubit and sent it.
    Sent { alice_value: bool, alice_basis: usize },
    /// The eavesdropper holds the qubit.
    Intercepted { alice_value: bool, alice_basis: usize },
    /// The eavesdropper applied its basis.
    EveBasisApplied { alice_value: bool, alice_basis: usize, eve_basis: usize },
    /// The eavesdropper measured the qubit.
    EveMeasured { alice_value: bool, alice_basis: usize, eve_basis: usize, eve_value: bool },
    /// The qubit reached the receiver; `eve` holds the eavesdropper's basis
    /// and value if it intercepted.
    Arrived { alice_value: bool, alice_basis: usize, eve: Option<(usize, bool)> },
    /// The receiver applied its basis.
    BobBasisApplied {
        alice_value: bool,
        alice_basis: usize,
        eve: Option<(usize, bool)>,
        bob_basis: usize,
    },
    /// The receiver measured the qubit: the round is over.
    Finished(QExecutionResult),
}

/// The operation that a round asks for.
#[derive(Clone, Copy, Debug, PartialEq, Eq)]
pub enum RoundAction {
    /// The sender prepares a qubit and the bit it stands for.
    PrepareQubit,
    /// The sender picks one of its bases and applies it.
    ChooseSenderBasis,
    /// It is drawn whether the eavesdropper intercepts this qubit.
    DecideInterception,
    /// The eavesdropper picks one of its bases and applies it.
    ChooseEveBasis,
    /// The eavesdropper measures the qubit.
    MeasureAsEve,
    /// The eavesdropper undoes its basis, the one of this index.
    RestoreQubit { eve_basis: usize },
    /// The receiver picks one of its bases and applies it.
    ChooseBobBasis,
    /// The receiver measures the qubit.
    MeasureAsBob,
    /// Nothing is left to do: this is the round's record.
    Deliver(QExecutionResult),
}

/// The outcome of an operation.
#[derive(Clone, Copy, Debug, PartialEq, Eq)]
pub enum RoundEvent {
    /// A qubit was prepared; it stands for this bit.
    Prepared { value: bool },
    /// The basis of this index was picked and applied.
    BasisChosen { basis: usize },
    /// It was drawn whether the eavesdropper intercepts.
    InterceptionDecided { intercepted: bool },
    /// The qubit was measured, with this result.
    Measured { value: bool },
    /// The eavesdropper undid its basis.
    Restored,
}

/// The record of a round from what was observed in it.
pub open spec fn round_record(
    alice_value: bool,
    alice_basis: usize,
    eve: Option<(usize, bool)>,
    bob_basis: usize,
    bob_value: bool,
) -> QExecutionResult {
    QExecutionResult {
        alice_value,
        alice_basis,
        bob_value,
        bob_basis,
        eve_value: match eve {
            Some(seen) => Some(seen.1),
            None => None,
        },
        eve_basis: match eve {
            Some(seen) => Some(seen.0),
            None => None,
        },
    }
}

/// The operation that `state` asks for.
pub open spec fn action_of(state: RoundState) -> RoundAction {
    match state {
        RoundState::Start => RoundAction::PrepareQubit,
        RoundState::Prepared { .. } => RoundAction::ChooseSenderBasis,
        RoundState::Sent { .. } => RoundAction::DecideInterception,
        RoundState::Intercepted { .. } => RoundAction::ChooseEveBasis,
        RoundState::EveBasisApplied { .. } => RoundAction::MeasureAsEve,
        RoundState::EveMeasured { eve_basis, .. } => RoundAction::RestoreQubit { eve_basis },
        RoundState::Arrived { .. } => RoundAction::ChooseBobBasis,
        RoundState::BobBasisApplied { .. } => RoundAction::MeasureAsBob,
        RoundState::Finished(record) => RoundAction::Deliver(record),
    }
}

/// `event` is an outcome of the operation `action`.
pub open spec fn answers(action: RoundAction, event: RoundEvent) -> bool {
    match action {
        RoundAction::PrepareQubit => event is Prepared,
        RoundAction::ChooseSenderBasis => event is BasisChosen,
        RoundAction::DecideInterception => event is InterceptionDecided,
        RoundAction::ChooseEveBasis => event is BasisChosen,
        RoundAction::MeasureAsEve => event is Measured,
        RoundAction::RestoreQubit { .. } => event is Restored,
        RoundAction::ChooseBobBasis => event is BasisChosen,
        RoundAction::MeasureAsBob => event is Measured,
        RoundAction::Deliver(_) => false,
    }
}

/// The state that follows `state` on `event`, or `None` where `event` is not
/// an outcome of the operation that `state` asks for.
pub open spec fn next(state: RoundState, event: RoundEvent) -> Option<RoundState> {
    match (state, event) {
        (RoundState::Start, RoundEvent::Prepared { value }) => Some(
            RoundState::Prepared { alice_value: value },
        ),
        (RoundState::Prepared { alice_value }, RoundEvent::BasisChosen { basis }) => Some(
            RoundState::Sent { alice_value, alice_basis: basis },
        ),
        (
            RoundState::Sent { alice_value, alice_basis },
            RoundEvent::InterceptionDecided { intercepted },
        ) => Some(
            if intercepted {
                RoundState::Intercepted { alice_value, alice_basis }
            } else {
                RoundState::Arrived { alice_value, alice_basis, eve: None }
            },
        ),
        (
            RoundState::Intercepted { alice_value, alice_basis },
            RoundEvent::BasisChosen { basis },
        ) => Some(RoundState::EveBasisApplied { alice_value, alice_basis, eve_basis: basis }),
        (
            RoundState::EveBasisApplied { alice_value, alice_basis, eve_basis },
            RoundEvent::Measured { value },
        ) => Some(RoundState::EveMeasured { alice_value, alice_basis, eve_basis, eve_value: value }),
        (
            RoundState::EveMeasured { alice_value, alice_basis, eve_basis, eve_value },
            RoundEvent::Restored,
        ) => Some(RoundState::Arrived { alice_value, alice_basis, eve: Some((eve_basis, eve_value)) }),
        (
            RoundState::Arrived { alice_value, alice_basis, eve },
            RoundEvent::BasisChosen { basis },
        ) => Some(RoundState::BobBasisApplied { alice_value, alice_basis, eve, bob_basis: basis }),
        (
            RoundState::BobBasisApplied { alice_value, alice_basis, eve, bob_basis },
            RoundEvent::Measured { value },
        ) => Some(
            RoundState::Finished(round_record(alice_value, alice_basis, eve, bob_basis, value)),
        ),
        _ => None,
    }
}

/// The state reached from `state` by the events of `events`, in order, or
/// `None` if one of them does not fit.
pub open spec fn run(state: RoundState, events: Seq<RoundEvent>) -> Option<RoundState>
    decreases events.len(),
{
    if events.len() == 0 {
        Some(state)
    } else {
        match next(state, events[0]) {
            Some(following) => run(following, events.drop_first()),
            None => None,
        }
    }
}

/// The events of a round that is not intercepted.
pub open spec fn direct_round(
    alice_value: bool,
    alice_basis: usize,
    bob_basis: usize,
    bob_value: bool,
) -> Seq<RoundEvent> {
    seq![
        RoundEvent::Prepared { value: alice_value },
        RoundEvent::BasisChosen { basis: alice_basis },
        RoundEvent::InterceptionDecided { intercepted: false },
        RoundEvent::BasisChosen { basis: bob_basis },
        RoundEvent::Measured { value: bob_value },
    ]
}

/// The events of a round that is intercepted.
pub open spec fn intercepted_round(
    alice_value: bool,
    alice_basis: usize,
    eve_basis: usize,
    eve_value: bool,
    bob_basis: usize,
    bob_value: bool,
) -> Seq<RoundEvent> {
    seq![
        RoundEvent::Prepared { value: alice_value },
        RoundEvent::BasisChosen { basis: alice_basis },
        RoundEvent::InterceptionDecided { intercepted: true },
        RoundEvent::BasisChosen { basis: eve_basis },
        RoundEvent::Measured { value: eve_value },
        RoundEvent::Restored,
        RoundEvent::BasisChosen { basis: bob_basis },
        RoundEvent::Measured { value: bob_value },
    ]
}

impl RoundState {
    /// The state of a round before anything has happened.
    pub fn new() -> (state: Self)
        ensures
            state == RoundState::Start,
    {
        RoundState::Start
    }

    /// The operation to perform next.
    pub fn pending_action(&self) -> (action: RoundAction)
        ensures
            action == action_of(*self),
    {
        match *self {
            RoundState::Start => RoundAction::PrepareQubit,
            RoundState::Prepared { .. } => RoundAction::ChooseSenderBasis,
            RoundState::Sent { .. } => RoundAction::DecideInterception,
            RoundState::Intercepted { .. } => RoundAction::ChooseEveBasis,
            RoundState::EveBasisApplied { .. } => RoundAction::MeasureAsEve,
            RoundState::EveMeasured { eve_basis, .. } => RoundAction::RestoreQubit { eve_basis },
            RoundState::Arrived { .. } => RoundAction::ChooseBobBasis,
            RoundState::BobBasisApplied { .. } => RoundAction::MeasureAsBob,
            RoundState::Finished(record) => RoundAction::Deliver(record),
        }
    }

    /// Moves the round on by the outcome of the pending operation. An event
    /// that is no outcome of that operation is refused.
    pub fn step(self, event: RoundEvent) -> (following: Option<RoundState>)
        ensures
            following == next(self, event),
    {
        match (self, event) {
            (RoundState::Start, RoundEvent::Prepared { value }) => Some(
                RoundState::Prepared { alice_value: value },
            ),
            (RoundState::Prepared { alice_value }, RoundEvent::BasisChosen { basis }) => Some(
                RoundState::Sent { alice_value, alice_basis: basis },
            ),
            (
                RoundState::Sent { alice_value, alice_basis },
                RoundEvent::InterceptionDecided { intercepted },
            ) => {
                if intercepted {
                    Some(RoundState::Intercepted { alice_value, alice_basis })
                } else {
                    Some(RoundState::Arrived { alice_value, alice_basis, eve: None })
                }
            },
            (
                RoundState::Intercepted { alice_value, alice_basis },
                RoundEvent::BasisChosen { basis },
            ) => Some(RoundState::EveBasisApplied { alice_value, alice_basis, eve_basis: basis }),
            (
                RoundState::EveBasisApplied { alice_value, alice_basis, eve_basis },
                RoundEvent::Measured { value },
            ) => Some(
                RoundState::EveMeasured { alice_value, alice_basis, eve_basis, eve_value: value },
            ),
            (
                RoundState::EveMeasured { alice_value, alice_basis, eve_basis, eve_value },
                RoundEvent::Restored,
            ) => Some(
                RoundState::Arrived { alice_value, alice_basis, eve: Some((eve_basis, eve_value)) },
            ),
            (
                RoundState::Arrived { alice_value, alice_basis, eve },
                RoundEvent::BasisChosen { basis },
            ) => Some(
                RoundState::BobBasisApplied { alice_value, alice_basis, eve, bob_basis: basis },
            ),
            (
                RoundState::BobBasisApplied { alice_value, alice_basis, eve, bob_basis },
                RoundEvent::Measured { value },
            ) => {
                let (eve_value, eve_basis) = match eve {
                    Some(seen) => (Some(seen.1), Some(seen.0)),
                    None => (None, None),
                };
                Some(
                    RoundState::Finished(
                        QExecutionResult::new(
                            alice_value,
                            alice_basis,
                            value,
                            bob_basis,
                            eve_value,
                            eve_basis,
                        ),
                    ),
                )
            },
            _ => None,
        }
    }
}

/// Plays a whole sequence of events from the start of a round and returns the
/// round's record, if the events make up exactly one complete round.
pub fn replay(events: &Vec<RoundEvent>) -> (record: Option<QExecutionResult>)
    ensures
        record == match run(RoundState::Start, events@) {
            Some(RoundState::Finished(finished)) => Some(finished),
            _ => None,
        },
{
    let mut state = RoundState::new();
    let mut k: usize = 0;
    assert(events@.skip(0) =~= events@);
    while k < events.len()
        invariant
            k <= events.len(),
            run(RoundState::Start, events@) == run(state, events@.skip(k as int)),
        decreases events.len() - k,
    {
        let ghost rest = events@.skip(k as int);
        assert(rest[0] == events@[k as int]);
        assert(rest.drop_first() =~= events@.skip(k + 1));
        match state.step(events[k]) {
            Some(following) => {
                state = following;
            },
            None => {
                return None;
            },
        }
        k += 1;
    }
    assert(events@.skip(k as int).len() == 0);
    match state {
        RoundState::Finished(finished) => Some(finished),
        _ => None,
    }
}

/// A round moves on exactly on the outcomes of the operation it asks for; a
/// finished round moves on no more.
pub proof fn lemma_accepts_what_it_asked_for(state: RoundState, event: RoundEvent)
    ensures
        next(state, event) is Some <==> answers(action_of(state), event),
{
}

/// A round that is not intercepted ends with a record that holds what sender
/// and receiver observed, and nothing for the eavesdropper.
pub proof fn lemma_direct_round(
    alice_value: bool,
    alice_basis: usize,
    bob_basis: usize,
    bob_value: bool,
)
    ensures
        run(RoundState::Start, direct_round(alice_value, alice_basis, bob_basis, bob_value))
            == Some(
            RoundState::Finished(round_record(alice_value, alice_basis, None, bob_basis, bob_value)),
        ),
{
    reveal_with_fuel(run, 8);
    let events = direct_round(alice_value, alice_basis, bob_basis, bob_value);
    let e1 = events.drop_first();
    let e2 = e1.drop_first();
    let e3 = e2.drop_first();
    let e4 = e3.drop_first();
    let e5 = e4.drop_first();
    assert(e5.len() == 0);
}

/// An intercepted round ends with a record that holds what all three parties
/// observed.
pub proof fn lemma_intercepted_round(
    alice_value: bool,
    alice_basis: usize,
    eve_basis: usize,
    eve_value: bool,
    bob_basis: usize,
    bob_value: bool,
)
    ensures
        run(
            RoundState::Start,
            intercepted_round(alice_value, alice_basis, eve_basis, eve_value, bob_basis, bob_value),
        ) == Some(
            RoundState::Finished(
                round_record(
                    alice_value,
                    alice_basis,
                    Some((eve_basis, eve_value)),
                    bob_basis,
                    bob_value,
                ),
            ),
        ),
{
    reveal_with_fuel(run, 10);
    let events = intercepted_round(
        alice_value,
        alice_basis,
        eve_basis,
        eve_value,
        bob_basis,
        bob_value,
    );
    let e1 = events.drop_first();
    let e2 = e1.drop_first();
    let e3 = e2.drop_first();
    let e4 = e3.drop_first();
    let e5 = e4.drop_first();
    let e6 = e5.drop_first();
    let e7 = e6.drop_first();
    let e8 = e7.drop_first();
    assert(e8.len() == 0);
}

/// Whatever events lead from the start of a round to its end, they are those
/// of a direct round or those of an intercepted round, with the values that
/// the record holds. So the record holds a value and a basis for the
/// eavesdropper exactly when the interception was decided for.
pub proof fn lemma_finished_round(events: Seq<RoundEvent>, record: QExecutionResult)
    requires
        run(RoundState::Start, events) == Some(RoundState::Finished(record)),
    ensures
        events.len() >= 3,
        events[2] is InterceptionDecided,
        record.eve_value is Some <==> events[2]->intercepted,
        record.eve_basis is Some <==> events[2]->intercepted,
        !events[2]->intercepted ==> events == direct_round(
            record.alice_value,
            record.alice_basis,
            record.bob_basis,
            record.bob_value,
        ),
        events[2]->intercepted ==> events == intercepted_round(
            record.alice_value,
            record.alice_basis,
            record.eve_basis.unwrap(),
            record.eve_value.unwrap(),
            record.bob_basis,
            record.bob_value,
        ),
{
    reveal_with_fuel(run, 10);
    let e1 = events.drop_first();
    let e2 = e1.drop_first();
    let e3 = e2.drop_first();
    let e4 = e3.drop_first();
    let e5 = e4.drop_first();
    assert(events.len() >= 5);
    assert(events[1] == e1[0] && events[2] == e2[0] && events[3] == e3[0] && events[4] == e4[0]);
    if events[2]->intercepted {
        let e6 = e5.drop_first();
        let e7 = e6.drop_first();
        let e8 = e7.drop_first();
        assert(events.len() >= 8);
        assert(events[5] == e5[0] && events[6] == e6[0] && events[7] == e7[0]);
        assert(e8.len() == 0);
        assert(events =~= intercepted_round(
            record.alice_value,
            record.alice_basis,
            record.eve_basis.unwrap(),
            record.eve_value.unwrap(),
            record.bob_basis,
            record.bob_value,
        ));
    } else {
        assert(e5.len() == 0);
        assert(events =~= direct_round(
            record.alice_value,
            record.alice_basis,
            record.bob_basis,
            record.bob_value,
        ));
    }
}

} // verus!
