pub mod actions;
pub mod app;
pub mod clock;
pub mod collections;
pub mod compose;
pub mod config;
pub mod details;
pub mod connection;
pub mod dispatch;
pub mod filter;
pub mod graph;
pub mod info;
pub mod laws;
pub mod layout;
pub mod logs;
pub mod logview;
pub mod model;
pub mod search;
pub mod sidebar;
pub mod sorting;
pub mod stats;
pub mod strings;
pub mod theme;
pub mod update;
