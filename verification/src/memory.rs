//! A storage engine that keeps the three tables in memory.
//!
//! Every method is verified against the trait it implements, and the engine
//! is reliable: it fails only where a table has no key left or an association
//! exists already. A new row gets the smallest key from 1 upwards that no row
//! of its table has. A unit of work is a copy of the tables, which `commit`
//! hands to the provider in place of its own.

pub mod keyed;
pub mod content;
pub mod tag;
pub mod content_tag;
pub mod provider;
