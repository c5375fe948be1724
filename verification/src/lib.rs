//! Rollback of versioned database schema migrations.
//!
//! The [`catalog`] reads the migration scripts of a folder from their file
//! names, the [`ledger`] holds the migrations that have been applied, and
//! the [`snapshot`] store finds the backup that a target names. The
//! [`planner`] decides from them what a rollback sets out to do, and
//! [`rollback`] carries it out as a machine that the caller drives: the
//! machine hands out actions, the caller performs them and reports what
//! came of them. The module [`laws`] states what holds of every rollback.

pub mod catalog;
pub mod connection;
pub mod decimal;
pub mod error;
pub mod laws;
pub mod ledger;
pub mod lexical;
pub mod migration;
pub mod planner;
pub mod rollback;
pub mod snapshot;
pub mod text;
