//! Review-batch pipeline of a desktop companion for a spaced-repetition
//! learning service: picking an available batch of subjects, joining the
//! fetched assignments and subjects into review cards, and folding the
//! outcomes of a batch of submissions into one result.
pub mod text;
pub mod error;
pub mod config;
pub mod wanikani;
pub mod selector;
pub mod assembler;
pub mod submitter;
pub mod gateway;
pub mod popup;
