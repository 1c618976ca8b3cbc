//! Aggregators fold the events of the bus into a state that can be asked
//! about.

pub mod accounts_state_aggregator;

use vstd::prelude::*;

verus! {

/// A state that is built up from events, one at a time.
pub trait Aggregator: Sized {
    type Event;

    /// What taking `event` makes of the state `before`.
    spec fn folds(before: Self, event: Self::Event, after: Self) -> bool;

    fn handle(&mut self, event: Self::Event)
        ensures
            Self::folds(*old(self), event, *final(self)),
    ;
}

/// What can be asked of an aggregator actor. `F` is a function that reads
/// the aggregator's state.
pub enum AggregatorRequests<F> {
    /// Show the state to the function.
    Call(F),
}

#[derive(PartialEq, Eq, Clone, Copy, Debug, Structural)]
pub enum AggregatorResponses {
    Finished,
}

/// The state of an aggregator actor.
pub struct AggregatorActor<TState> {
    state: TState,
}

impl<TState> View for AggregatorActor<TState> {
    type V = TState;

    /// The aggregator's state.
    closed spec fn view(&self) -> TState {
        self.state
    }
}

impl<TState: Aggregator> AggregatorActor<TState> {
    /// An actor over the aggregator's initial state.
    pub fn new() -> (actor: AggregatorActor<TState>) where TState: Default
        ensures
            call_ensures(TState::default, (), actor@),
    {
        AggregatorActor { state: TState::default() }
    }

    /// The state as the events so far have made it.
    pub fn state(&self) -> (state: &TState)
        ensures
            *state == self@,
    {
        &self.state
    }

    /// Answers a request: the state is shown to the caller's function, which
    /// cannot change it.
    pub fn handle_request<F>(&self, request: AggregatorRequests<F>) -> (r: AggregatorResponses)
        where F: Fn(&TState)
        requires
            request matches AggregatorRequests::Call(f) ==> call_requires(f, (&self@,)),
        ensures
            r == AggregatorResponses::Finished,
            request matches AggregatorRequests::Call(f) ==> call_ensures(f, (&self@,), ()),
    {
        match request {
            AggregatorRequests::Call(f) => {
                f(&self.state);
                AggregatorResponses::Finished
            },
        }
    }

    /// Takes one event of the bus into the state.
    pub fn handle_event(&mut self, event: TState::Event)
        ensures
            TState::folds(old(self)@, event, final(self)@),
    {
        self.state.handle(event);
    }
}

} // verus!
