//! Content items tagged with free-form labels, kept consistent by units of work.
//!
//! Three tables make up the persisted state: content rows, tag rows and the
//! association between them. Every operation of the library runs inside one
//! unit of work, so that either all of its writes become durable or none does.
//!
//! - [`entity`], [`dto`] and [`error`] hold the plain values.
//! - [`tables`] is the mathematical model of the three tables and says what
//!   each operation does to them; [`keys`] says when a table has keys left.
//! - [`interface`] holds the contracts that a storage engine has to meet.
//! - [`content`] and [`tag`] are the operations, written against those
//!   contracts alone, with the decisions they take in [`rules`].
//! - [`guarantees`] proves what the operations keep true of the tables.
//! - [`memory`] is a storage engine that meets the contracts without any
//!   outside service.

pub mod entity;
pub mod error;
pub mod keys;
pub mod tables;
pub mod interface;
pub mod dto;
pub mod rules;
pub mod content;
pub mod tag;
pub mod guarantees;
pub mod memory;
