//! PushMe message server: the decisions of a self-hosted push service.
//!
//! The library holds the rules of the service. Sockets and files belong to the
//! program around it, which hands plain values in and carries out what comes
//! back; it also starts the message router, and hands in a link to it.

pub mod auth;
pub mod auth_laws;
pub mod call_laws;
pub mod certs;
pub mod clock;
pub mod config;
pub mod crypto;
pub mod feishu;
pub mod ip;
pub mod ip_laws;
pub mod json;
pub mod json_laws;
pub mod login;
pub mod mqtt;
pub mod operations;
pub mod packet;
pub mod pages;
pub mod panel;
pub mod panel_laws;
pub mod publish;
pub mod push_api;
pub mod push_laws;
pub mod push_log;
pub mod reply;
pub mod session;
pub mod session_laws;
pub mod session_rules;
pub mod settings;
pub mod settings_laws;
pub mod sniff;
pub mod startup;
pub mod text;
pub mod text_laws;
pub mod third;
pub mod topic_map;
pub mod webhook_laws;
pub mod weiding;
pub mod wire_laws;
