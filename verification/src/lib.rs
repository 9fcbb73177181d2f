pub mod client;
pub mod config;
pub mod daemon;
pub mod graph;
pub mod link_manager;
pub mod messages;
pub mod names;
pub mod registry;
pub mod state;
pub mod text;
pub mod startup;
