//! Request handling for a small catalog of trainers, creatures, regions and
//! abilities kept in a relational store.
//!
//! A handler never talks to the store itself. It is a state machine: started,
//! it asks one statement; given the answer, it asks the next one or ends the
//! request with a response. The caller performs the round trips. Each handler
//! comes with a proof of what its response is when the answers come from one
//! snapshot of the store.

pub mod abilities;
pub mod catalog;
pub mod envelope;
pub mod model;
pub mod roster;
pub mod statement;
pub mod tables;
pub mod trainer;
