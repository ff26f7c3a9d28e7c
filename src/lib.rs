//! A terminal quiz player's core: a parser for plain-text question banks,
//! the order in which a bank is walked, per-presentation option relabeling,
//! the reveal/answer state machine of one question, and grading.

pub mod parser;
pub mod policy;
pub mod record;
pub mod session;
pub mod text;
