pub mod api;
pub mod cli;
pub mod config;
pub mod connection;
pub mod device_policy;
pub mod error;
pub mod grouping;
pub mod gui;
pub mod host_agent;
pub mod inventory;
pub mod logging;
pub mod order;
pub mod protocol;
pub mod session;
pub mod text;
pub mod usbip;
