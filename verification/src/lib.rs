//! Steady-state and CRUD benchmark scheduling, and the performance gates over its artifacts.
pub mod artifact;
pub mod binary64;
pub mod config;
pub mod course;
pub mod decimal;
pub mod failure;
pub mod figure;
pub mod gate;
pub mod generator;
pub mod laws;
pub mod mix;
pub mod mode;
pub mod operation;
pub mod phase;
pub mod recorder;
pub mod row;
pub mod run;
pub mod selector;
pub mod settings;
pub mod steadygate;
pub mod suite;
pub mod table;
pub mod text;
pub mod toykv;
pub mod vector;
pub mod window;
pub mod workload;
