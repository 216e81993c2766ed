//! Governance and tokenomics of a digital nation: proposal voting with
//! timelocked execution, stake reward accrual with slashing, credentials with
//! a contestable recovery of identities, the treasury's books, grants with
//! milestone payouts, and proposal templates.
//!
//! Every engine is an explicit state value. Its operations take the caller,
//! the block height and any outside answer (a credential check, an amount of
//! funds received) as plain arguments, and hand back what the host must carry
//! out (a payout, a treasury spend) as plain values.

pub mod arith;
pub mod digest;
pub mod errors;
pub mod governance;
pub mod grants;
pub mod paging;
pub mod registry;
pub mod staking;
pub mod templates;
pub mod treasury;
pub mod verification;
pub mod voting;
