//! Ways to run transactions through an engine.

pub mod simple;
