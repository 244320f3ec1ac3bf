//! Maintenance of a desktop program: clearing away WebView2 processes that outlived their window,
//! and synchronising the customised repository of the program with its upstream.
//!
//! Everything here decides and computes on plain values. Looking at the system and acting on it is
//! left to the caller.
pub mod clean_up_laws;
pub mod command;
pub mod custom_updater;
pub mod custom_updater_laws;
pub mod data_dir;
pub mod data_dir_laws;
pub mod repo;
pub mod repo_laws;
pub mod run_step;
pub mod run_step_laws;
pub mod text;
pub mod text_laws;
pub mod webview2_maintenance;
pub mod webview2_maintenance_laws;
