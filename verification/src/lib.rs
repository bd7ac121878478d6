//! Verified core of the alpha workflow tool: expression factories, tags,
//! request texts, credential parsing, date periods and the decision steps
//! of the workflows that talk to the Brain API.

pub mod text;
pub mod expr;
pub mod workflow;
pub mod brain;
pub mod cli;
pub mod steps;
pub mod dates;
pub mod csvids;
pub mod log;
