//! Decision logic of a server-listing bot: command replies, field updates,
//! vote-reminder subscriptions and reminder messages.
pub mod text;
pub mod decimal;
pub mod set_field;
pub mod set_flow;
pub mod vote;
pub mod toggle;
pub mod reminders;
pub mod config;
pub mod info;

use vstd::prelude::*;

verus! {

} // verus!
