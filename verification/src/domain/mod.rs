//! The account domain: amounts, money, events and the account itself.

pub mod account;
pub mod amount;
pub mod events;
pub mod laws;
pub mod money;

use vstd::prelude::*;

verus! {

/// The outcome of a domain operation: either the data it produced together
/// with the events it raised, or the reason why nothing happened.
#[derive(Clone, Debug)]
pub enum DomainResult<T, TErr, TEvent> where
    T: Clone + std::fmt::Debug,
    TErr: Clone + std::fmt::Debug,
    TEvent: Clone + std::fmt::Debug,
 {
    Done { data: T, events: Vec<TEvent> },
    Failed(TErr),
}

impl<T, TErr, TEvent> DomainResult<T, TErr, TEvent> where
    T: Clone + std::fmt::Debug,
    TErr: Clone + std::fmt::Debug,
    TEvent: Clone + std::fmt::Debug,
 {
    /// Hands the outcome to the function that is meant for it.
    pub fn map<TResult, FOk, FErr>(self, fok: FOk, ferr: FErr) -> (r: TResult) where
        FOk: Fn(T, Vec<TEvent>) -> TResult,
        FErr: Fn(TErr) -> TResult,

        requires
            match self {
                DomainResult::Done { data, events } => fok.requires((data, events)),
                DomainResult::Failed(err) => ferr.requires((err,)),
            },
        ensures
            match self {
                DomainResult::Done { data, events } => fok.ensures((data, events), r),
                DomainResult::Failed(err) => ferr.ensures((err,), r),
            },
    {
        match self {
            DomainResult::Done { data, events } => fok(data, events),
            DomainResult::Failed(err) => ferr(err),
        }
    }

    /// The data and the events of a success.
    pub fn unwrap(self) -> (r: (T, Vec<TEvent>))
        requires
            self is Done,
        ensures
            self == (DomainResult::<T, TErr, TEvent>::Done { data: r.0, events: r.1 }),
    {
        match self {
            DomainResult::Done { data, events } => (data, events),
            DomainResult::Failed(_) => unreached(),
        }
    }

    /// The data of a success.
    pub fn unwrap_data(self) -> (r: T)
        requires
            self is Done,
        ensures
            r == self->data,
    {
        match self {
            DomainResult::Done { data, .. } => data,
            DomainResult::Failed(_) => unreached(),
        }
    }

    /// The events of a success.
    pub fn unwrap_events(self) -> (r: Vec<TEvent>)
        requires
            self is Done,
        ensures
            r == self->events,
    {
        match self {
            DomainResult::Done { events, .. } => events,
            DomainResult::Failed(_) => unreached(),
        }
    }

    pub fn is_err(self) -> (r: bool)
        ensures
            r == (self is Failed),
    {
        match self {
            DomainResult::Done { .. } => false,
            DomainResult::Failed(_) => true,
        }
    }

    /// The failure itself, for a caller that knows there is one.
    pub fn expect_err(self, msg: impl AsRef<str>) -> (r: DomainResult<T, TErr, TEvent>)
        requires
            self is Failed,
        ensures
            r == self,
    {
        match self {
            DomainResult::Failed(err) => DomainResult::Failed(err),
            _ => unreached(),
        }
    }
}

} // verus!
