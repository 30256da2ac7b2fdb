//! Settlement core of two wagering games: a dice game played against a
//! shared bankroll, and a deposit-window lottery whose winners are found
//! without an index over past tickets.
//!
//! Account provisioning, signatures and native-balance transfers belong to
//! the host: the operations here take the clock, balances and the
//! slot-hashes record as plain values, and return what to pay.

pub mod address;
pub mod dice;
pub mod lottery;
pub mod oracle;
pub mod window;
