//! The decisions of the actors. Each actor here is a state machine: it takes
//! a message, changes its state, and says what is to be sent, published or
//! scheduled. Running the mailboxes is left to the program around it.

pub mod account;
pub mod account_manager;
pub mod account_shard;
pub mod aggregators;
