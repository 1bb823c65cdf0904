//! Verified logic of a set of small Rust programs: a Caesar cipher, tribonacci
//! sequences, a tree of lights, enrolment statistics, dice, greetings, simple
//! functional containers, a reference-counted pointer, a line matcher, a
//! parallel command runner and helpers of a Logo interpreter.

pub mod text;
pub mod caesar;
pub mod tribonacci;
pub mod lights;
pub mod enrolments;
pub mod dice;
pub mod greetings;
pub mod fun_types;
pub mod myrc;
pub mod grep;
pub mod decimal;
pub mod command_line;
pub mod pars_options;
pub mod remote;
pub mod executor;
pub mod logo_text;
pub mod logo;
pub mod collection_ops;
