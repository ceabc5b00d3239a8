//! The logic of `cli-warden`: a daemon that runs a whitelist of commands for remote clients
//! under a policy, and the client that asks it to.
//!
//! What the library decides is stated in contracts over the models in `policy_model`,
//! `server_model` and `session_model`; what holds of it as a whole is stated in the laws of the
//! modules whose names end so, and beside the functions that they speak of.
//! What talks to the system stands outside: it performs the actions that the library asks for,
//! and hands back what happened.

pub mod client;
pub mod client_laws;
pub mod config;
pub mod decision_laws;
pub mod execute_laws;
pub mod hook;
pub mod hook_laws;
pub mod loading_laws;
pub mod ordered;
pub mod output_laws;
pub mod output_pump;
pub mod packet_laws;
pub mod patterns;
pub mod pki;
pub mod pki_laws;
pub mod policy;
pub mod policy_laws;
pub mod policy_model;
pub mod policy_tool;
pub mod redaction;
pub mod redaction_laws;
pub mod registry;
pub mod registry_laws;
pub mod server;
pub mod server_laws;
pub mod server_model;
pub mod session;
pub mod session_laws;
pub mod session_model;
pub mod setup;
pub mod setup_laws;
pub mod stream_queue;
pub mod text;
pub mod text_laws;
pub mod tool_laws;
pub mod utf8_input;
