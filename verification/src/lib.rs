//! Verified core of malai: configuration interpretation, access control,
//! request decisions and text processing for the kulfi peer-to-peer tools.

pub mod counters;
pub mod text;
pub mod folder;
pub mod folder_page;
pub mod toml_doc;
pub mod cluster_config;
pub mod protocol;
pub mod identity_keys;
pub mod ssh_server;
pub mod cluster;
pub mod agent;
pub mod client;
pub mod browse;
pub mod run;
pub mod config_manager;
pub mod cli;
pub mod malai_server;
pub mod simple_server;
pub mod daemon_socket;
pub mod machine_init;
pub mod bridge;
pub mod announce;
pub mod commands;
pub mod skynet;
pub mod sdk;
