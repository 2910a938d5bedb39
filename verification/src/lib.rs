//! A small shell as a library: a line is parsed into a pipeline, the variables
//! of the pipeline are resolved, and the pipeline is executed stage by stage,
//! each stage getting what the stage before it put out.
//!
//! The library computes and decides; it starts no program and touches no file.
//! Where a stage needs either, the execution stops with a request, and goes on
//! when its host hands it the reply.
pub mod error;
pub mod text;
pub mod grammar;
pub mod notation;
pub mod parser;
pub mod environment;
pub mod commands;
pub mod shell;
pub mod builtins;
