//! Verified core of the skate cluster tool.
use vstd::prelude::*;

pub mod apply;
pub mod cli;
pub mod cluster_cmd;
pub mod config;
pub mod config_cmd;
pub mod controllers;
pub mod cordon;
pub mod create;
pub mod cron;
pub mod delete;
pub mod describe;
pub mod errors;
pub mod execution;
pub mod filestore;
pub mod fixup;
pub mod get;
pub mod github;
pub mod ingress_conf;
pub mod labels;
pub mod logs;
pub mod manifest;
pub mod naming;
pub mod net;
pub mod node_shell;
pub mod on;
pub mod platform;
pub mod provision;
pub mod refresh;
pub mod resource;
pub mod rollout;
pub mod scheduler;
pub mod state;
pub mod text;
pub mod versions;

verus! {
} // verus!
