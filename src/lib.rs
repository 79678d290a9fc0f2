//! A two-party escrow: a maker locks a deposit of one asset in a vault owned by
//! an escrow record and names how much of another asset it wants back; a taker
//! may fulfil the trade, or the maker may cancel and reclaim the deposit.
pub mod instructions;
pub mod laws;
pub mod ledger;
pub mod model;
