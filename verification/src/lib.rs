//! Verified core of the grok-pi host integration.
use vstd::prelude::*;

pub mod json;
pub mod lex;
pub mod number;
pub mod pi_host;
pub mod queue_bridge;
pub mod queue_runtime;
pub mod recap_bridge;
pub mod recovery;
pub mod self_heal;
pub mod seq_util;
pub mod session_tree;
pub mod settings;
pub mod subagent_bridge;
pub mod subagent_projection;
pub mod background_bash_bridge;
pub mod btw_bridge;
pub mod crash_report;
pub mod culprit_search;
pub mod custom_bridges;
pub mod ext_handlers;
pub mod ext_notices;
pub mod ext_requests;
pub mod extension_args;
pub mod extension_identity;
pub mod text;
pub mod theme_registry;
pub mod tool_args;
pub mod tool_projection;

verus! {

} // verus!
