//! Verified core of the UNFUDGED filesystem flight recorder.

pub mod text;
pub mod clock;
pub mod places;
pub mod numbers;
pub mod session;
pub mod types;
pub mod output;
pub mod grouping;
pub mod history;
pub mod listing;
pub mod diff;
pub mod recap;
pub mod project_list;
pub mod watching;
pub mod prune;
pub mod paths;
pub mod migration;
pub mod status;
pub mod settings;
pub mod autostart;
pub mod command_scan;
pub mod app_state;
pub mod restart;
pub mod glob_filter;
pub mod desktop;
pub mod git_output;
pub mod restore;
pub mod cat;
pub mod daemon_reports;
