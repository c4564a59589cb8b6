//! The core of a terminal manager for SSH tunnels over many hosts.
//!
//! Everything here is a decision: what a target string means, what a key press does, which
//! tunnel may be added, what goes on the screen. Sockets, files, the terminal and the clock
//! belong to the program around this library, which hands in plain values and takes plain
//! values back. There is one exception: an SSH configuration that names other files with
//! `Include` has them read by the parser that [`target`] calls.

pub mod app;
pub mod app_laws;
pub mod call_laws;
pub mod commands;
pub mod config;
pub mod forms;
pub mod key_laws;
pub mod keys;
pub mod login;
pub mod manager;
pub mod manager_laws;
pub mod news;
pub mod overview;
pub mod paths;
pub mod popups;
pub mod port_laws;
pub mod port_map;
pub mod ports;
pub mod relay;
pub mod request_laws;
pub mod screen;
pub mod screen_laws;
pub mod service;
pub mod session;
pub mod session_laws;
pub mod ssh_hosts;
pub mod style_laws;
pub mod styles;
pub mod summary;
pub mod target;
pub mod target_laws;
pub mod text;
pub mod text_laws;
pub mod tunnel;
pub mod tunnel_laws;
pub mod tunnel_log;
pub mod units;
pub mod value_laws;
