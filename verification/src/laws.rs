//! What the library promises as a whole: each law says, in terms of what goes in and what comes out,
//! what an operation is for.
pub mod artifacts;
pub mod calls;
pub mod change;
pub mod commands;
pub mod comparison;
pub mod filing;
pub mod findings;
pub mod keys;
pub mod labels;
pub mod lines;
pub mod mixes;
pub mod notices;
pub mod numbers;
pub mod order;
pub mod report;
pub mod rows;
pub mod sheet;
pub mod store;
pub mod tables;
pub mod vectors;
pub mod windows;
pub mod words;
