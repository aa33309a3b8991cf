//! A small library demonstrating three tiers of outcomes and how callers see
//! each: absence (an optional value that may legitimately be missing),
//! recoverable failure (a result carrying a descriptive cause, short-circuited
//! through call chains), and unrecoverable faults (which never return and are
//! therefore outside what this library's verified functions can do).

pub mod entities;
pub mod parse;
pub mod search;
