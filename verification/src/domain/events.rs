//! What the domain tells the rest of the system.

use crate::domain::amount::Amount;
use crate::domain::amount::Dec;
use vstd::prelude::*;

verus! {

#[derive(Clone, Copy, Debug)]
pub enum AllEvents {
    /// The state of an account right after a transaction changed it.
    AccountUpdated { account_id: u32, transaction_id: u32, amount: Amount, held: Amount, locked: bool },
}

/// The mathematical content of an event.
pub enum EventView {
    AccountUpdated { account_id: u32, transaction_id: u32, amount: Dec, held: Dec, locked: bool },
}

impl View for AllEvents {
    type V = EventView;

    open spec fn view(&self) -> EventView {
        match *self {
            AllEvents::AccountUpdated { account_id, transaction_id, amount, held, locked } => {
                EventView::AccountUpdated {
                    account_id,
                    transaction_id,
                    amount: amount@,
                    held: held@,
                    locked,
                }
            },
        }
    }
}

} // verus!
