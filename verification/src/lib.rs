//! The decisions behind an agent's tools: which environment a call runs in, what
//! a command may do, how it is run, what a listing shows, and which plugin
//! marketplaces are installed.
//!
//! Nothing here reads a file, waits or talks to a server. Where an answer has to
//! come from outside, a function takes it as an argument or is given the function
//! that finds it.

pub mod text;
pub mod order;
pub mod paths;
pub mod sort;
pub mod env_map;
pub mod json;
pub mod toml_config;

pub mod error;
pub mod profile;
pub mod tool;
pub mod environment;

pub mod list_dir;
pub mod dir_walk;
pub mod list_dir_call;

pub mod permissions;
pub mod exec;
pub mod shell_request;
pub mod shell;
pub mod shell_call;
pub mod exec_like;

pub mod runtime;
pub mod run;
pub mod exec_output;
pub mod exec_server;
pub mod remote_shell;

pub mod marketplaces;
pub mod marketplace_temp;
