//! An escrow ledger for challenges.
//!
//! A creator deposits a reward pool, participants join before a deadline, the
//! creator marks winners who are each paid a share of the pool, and the
//! creator finally closes the challenge to reclaim whatever was not paid out.
//!
//! The library is the state machine alone: persistence, the authorization
//! oracle, the clock and the value-transfer primitive are host services.  The
//! host hands each operation the authenticated caller and, where needed, the
//! current time, and receives back the transfer it must perform; a failed
//! transfer aborts the whole call, so the host discards the new state.

pub mod escrow;
pub mod payout;
pub mod types;
