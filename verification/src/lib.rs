//! Request building, source selection and report rendering for the command-line client of
//! the formsy code-graph server.
//!
//! The verified library holds the logic of the client: which source files a compile request
//! carries and in which order, how requests are assembled from command-line options, how the
//! git inventory is read, and the exact text that each command prints. Network access, the
//! file system and argument parsing live in the program around it.

pub mod collect;
pub mod commands;
pub mod client;
pub mod capabilities;
pub mod models;
pub mod numbers;
pub mod text;
