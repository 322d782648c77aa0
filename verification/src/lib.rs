//! Decision logic of a materialized-view consistency drill: the write-load
//! generator's workers and the cross-node snapshot checker.

pub mod checker;
pub mod generator;
pub mod retry;
pub mod sequence;
pub mod snapshot;
pub mod statement;
pub mod stopper;
pub mod text;
pub mod worker;
