//! The configuration of the daemon and of its clients.

use crate::text::texts;
use vstd::prelude::*;

verus! {

/// What a policy rule does with a request.
#[derive(Debug, Clone, Copy, PartialEq, Eq, Structural, Hash)]
pub enum Effect {
    Allow,
    Deny,
    Ask,
    Audit,
}

/// The configuration file of the daemon.
#[derive(Debug, Clone)]
pub struct DaemonConfig {
    pub server: ServerConfig,
    pub pki: PkiConfig,
    pub policy: PolicyConfig,
    pub commands: Vec<CommandEntry>,
    pub secrets: Option<SecretsConfig>,
    pub rules: Vec<RawRule>,
}

/// Where the daemon listens, and its TLS material.
#[derive(Debug, Clone)]
pub struct ServerConfig {
    pub listen: String,
    pub tls_cert_path: String,
    pub tls_key_path: String,
    pub client_ca_cert_path: String,
}

/// Where the daemon's certificate authority is kept, and what its clients connect to.
#[derive(Debug, Clone)]
pub struct PkiConfig {
    pub ca_cert_path: String,
    pub ca_key_path: String,
    pub clients_dir: String,
    pub server_uri: String,
    pub server_domain: String,
}

/// Where the secrets to be redacted are listed.
#[derive(Debug, Clone)]
pub struct SecretsConfig {
    pub file: String,
}

/// The configuration file of a client.
#[derive(Debug, Clone)]
pub struct ClientConfig {
    pub server_uri: String,
    pub server_domain: String,
    pub ca_cert_path: String,
    pub client_cert_path: String,
    pub client_key_path: String,
}

/// The policy: its default, and its rules in shorthand.
#[derive(Debug, Clone)]
pub struct PolicyConfig {
    pub default: Effect,
    pub ask_requires_intent: bool,
    pub allow_hook_timeout_secs: u64,
    pub allow_hook: Option<String>,
    pub allow: Vec<String>,
    pub deny: Vec<String>,
    pub ask: Vec<String>,
}

/// A policy rule as it is written in the configuration.
#[derive(Debug, Clone)]
pub struct RawRule {
    pub effect: Effect,
    pub cmd: String,
    pub args_exact: Option<Vec<String>>,
    pub args_prefix: Option<Vec<String>>,
    pub args_glob: Option<Vec<String>>,
    pub args_regex: Option<Vec<String>>,
    pub intent_required: Option<bool>,
}

/// A command that clients can ask for, and the binary that it stands for.
#[derive(Debug, Clone)]
pub struct CommandEntry {
    pub id: String,
    pub path: String,
}

/// The model of a `RawRule`.
pub struct RawRuleView {
    pub effect: Effect,
    pub cmd: Seq<char>,
    pub args_exact: Option<Seq<Seq<char>>>,
    pub args_prefix: Option<Seq<Seq<char>>>,
    pub args_glob: Option<Seq<Seq<char>>>,
    pub args_regex: Option<Seq<Seq<char>>>,
    pub intent_required: Option<bool>,
}

/// The texts of an optional list.
pub open spec fn opt_texts(list: Option<Vec<String>>) -> Option<Seq<Seq<char>>> {
    match list {
        Some(v) => Some(texts(v@)),
        None => None,
    }
}

/// An optional text.
pub open spec fn opt_text(s: Option<String>) -> Option<Seq<char>> {
    match s {
        Some(v) => Some(v@),
        None => None,
    }
}

impl View for RawRule {
    type V = RawRuleView;

    open spec fn view(&self) -> RawRuleView {
        RawRuleView {
            effect: self.effect,
            cmd: self.cmd@,
            args_exact: opt_texts(self.args_exact),
            args_prefix: opt_texts(self.args_prefix),
            args_glob: opt_texts(self.args_glob),
            args_regex: opt_texts(self.args_regex),
            intent_required: self.intent_required,
        }
    }
}

/// The effect of a policy that names no default.
pub fn default_effect() -> (e: Effect)
    ensures
        e == Effect::Deny,
{
    Effect::Deny
}

/// How long the allow hook may run where the policy does not say.
pub fn default_allow_hook_timeout_secs() -> (n: u64)
    ensures
        n == 1800,
{
    1800
}

impl Default for PolicyConfig {
    fn default() -> (cfg: PolicyConfig)
        ensures
            cfg.default == Effect::Deny,
            !cfg.ask_requires_intent,
            cfg.allow_hook_timeout_secs == 1800,
            cfg.allow_hook is None,
            cfg.allow@.len() == 0,
            cfg.deny@.len() == 0,
            cfg.ask@.len() == 0,
    {
        PolicyConfig {
            default: default_effect(),
            ask_requires_intent: false,
            allow_hook_timeout_secs: default_allow_hook_timeout_secs(),
            allow_hook: None,
            allow: Vec::new(),
            deny: Vec::new(),
            ask: Vec::new(),
        }
    }
}

} // verus!
