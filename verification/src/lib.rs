//! A small embeddable predicate DSL and document-store toolkit.
//!
//! A textual filter such as `active=true && level ~ (1,2,3)` is parsed into a
//! typed expression tree, which can either be evaluated directly against
//! semi-structured records held in memory, or compiled into the query
//! document of a document database.

#![verifier::loop_isolation(false)]

pub mod cond;
pub mod condition;
pub mod dict;
pub mod filter;
pub mod local;
pub mod matchs;
pub mod object;
pub mod parse;
pub mod record;
pub mod store;
pub mod stream;
pub mod text;
pub mod time;
pub mod uri;
pub mod validate;
pub mod value;
