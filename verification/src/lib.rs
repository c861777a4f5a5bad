//! Verified core of a code-generation attribute: prompt building, reply
//! cleanup, panic linting, doctest extraction, dependency listing, cache
//! naming and the retry protocol that drives a generation session.

pub mod text;
pub mod lint;
pub mod fences;
pub mod doctests;
pub mod prompt;
pub mod config;
pub mod cache;
pub mod types;
pub mod order;
pub mod deps;
pub mod session;
