//! The verified core of a browser automation server.

pub mod text;
pub mod json;
pub mod snapshot;
pub mod pattern;
pub mod keys;
pub mod path;
pub mod config;
pub mod origin;
pub mod state;
pub mod cdp;
pub mod page_events;
pub mod encoding;
pub mod events;
pub mod reply;
pub mod network;
pub mod input;
pub mod browser;
pub mod launch;
pub mod mode;
pub mod actions;
pub mod elements;
pub mod capture;
pub mod tabs;
pub mod install;
pub mod liveview;
pub mod params;
pub mod positions;
pub mod project;
pub mod server;
pub mod tools;
pub mod reading;
pub mod stores;
pub mod capabilities;
pub mod gesture;
