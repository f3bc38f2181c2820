//! Accounting engine of a collateralized lending protocol.
//!
//! A lending market is a set of reserves and obligations. A [`reserve::Reserve`]
//! is a pool of one token: depositors put liquidity in and hold collateral
//! tokens for it, borrowers take liquidity out and owe it back with interest.
//! An [`obligation::Obligation`] is the position of one borrower: collateral
//! deposited, liquidity owed, and the values that decide how much more may be
//! borrowed and when the position may be liquidated.
//!
//! The engine only computes. It takes the states and the inputs of an
//! operation, and either changes the states and says which tokens must move,
//! or refuses and changes nothing. Whoever calls it loads and stores the
//! states, reads the price oracles and moves the tokens.
//!
//! The modules, from the ground up:
//!
//! - [`wide`], [`decimal`], [`rate`], [`format`]: checked fixed-point
//!   arithmetic with eighteen fractional digits, and its decimal text;
//! - [`error`], [`address`], [`last_update`], [`oracle`], [`fees`]: the small
//!   types that the states are made of;
//! - [`reserve`], [`obligation`]: the two states and what can be done to each
//!   alone;
//! - [`refresh`], [`obligation_refresh`]: bringing a state up to date;
//! - [`lending`], [`borrowing`], [`liquidation`]: the operations;
//! - [`transfer`], [`logs`]: what an operation hands to its caller besides
//!   the new states;
//! - [`laws`]: what holds across operations.
//!
//! Every state has a view in which its fixed-point fields are natural numbers
//! scaled by `10^18`. The contracts are written over these views: an
//! operation's contract says what the views are afterwards, for every input,
//! and which error is reported when it refuses.

pub mod address;
pub mod borrowing;
pub mod decimal;
pub mod error;
pub mod fees;
pub mod format;
pub mod last_update;
pub mod laws;
pub mod lending;
pub mod liquidation;
pub mod logs;
pub mod obligation;
pub mod obligation_refresh;
pub mod oracle;
pub mod rate;
pub mod refresh;
pub mod reserve;
pub mod transfer;
pub mod wide;
