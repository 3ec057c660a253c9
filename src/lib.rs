//! Knowledge-power scoring, commodity leaderboards, a weighted commenter
//! lottery and the income-redemption settlement machines of a content
//! marketplace, with their contracts proved by Verus.
//!
//! - `arith`: per-thing fractions (percent, per million, per billion).
//! - `table`: keyed records under an app (or cycle) and a byte id.
//! - `power`, `document`: document content, judge and attendance power.
//! - `board`: capacity-bounded descending leaderboards.
//! - `aggregate`: commodity power, global and account totals, slashing.
//! - `store`: document and comment creation over the pieces above.
//! - `model`: models, deposits and commodity types.
//! - `lottery`: the weighted commenter lottery.
//! - `stage`, `income`, `exchange`: income cycles, rewards, redemption
//!   and financing exchange.
//! - `dispute`, `vote`: disputes, fund withdrawals, stake-to-vote weight.
//! - `rpc`: the query handle.

pub mod arith;
pub mod table;
pub mod power;
pub mod document;
pub mod board;
pub mod error;
pub mod aggregate;
pub mod stage;
pub mod lottery;
pub mod exchange;
pub mod income;
pub mod vote;
pub mod dispute;
pub mod rpc;
pub mod store;
pub mod model;

use vstd::prelude::*;

verus! {

} // verus!
