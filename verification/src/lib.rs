//! A filtering web proxy's request, response, action and filter logic.

use vstd::prelude::*;

pub mod text;
pub mod error;
pub mod bindings;
pub mod util;
pub mod encode;
pub mod deanimate;
pub mod http;
pub mod compression;
pub mod filter;
pub mod errlog;
pub mod constants;
pub mod config;
pub mod loaders;
pub mod action_string;
pub mod action_rules_a;
pub mod action_rules_b;
pub mod action_rules_c;
pub mod action_rules_d;
pub mod content_filter;
pub mod action;
pub mod state;
pub mod client_tags;
pub mod forwarding;
pub mod cgiedit;
pub mod feature;
pub mod template;
pub mod cgi;
pub mod pages;
pub mod header_actions;
pub mod filter_actions;
pub mod connection;
pub mod server;

verus! {
} // verus!
