//! Keeping a laptop's built-in panel off while a chosen external monitor is
//! connected, and bringing it back when none is.
pub mod text;
pub mod number;
pub mod ids;
pub mod display;
pub mod placer;
pub mod target;
pub mod target_laws;
pub mod state;
pub mod state_laws;
pub mod policy;
pub mod path;
pub mod agent;
pub mod wording;
pub mod screen;
pub mod effect;
pub mod files;
pub mod commands;
pub mod native;
pub mod restore;
pub mod guard;
pub mod switching;
pub mod watching;
pub mod options;
pub mod snapshot;
pub mod install;
pub mod watch;
pub mod command;
pub mod interactive;
pub mod safety_laws;
pub mod interactive_laws;
pub mod tape_laws;
pub mod replay_laws;
pub mod asking;
pub mod front_laws;
pub mod text_laws;
pub mod reading_laws;
pub mod file_laws;
pub mod agent_laws;
pub mod native_laws;
pub mod policy_laws;
pub mod restore_laws;
pub mod recovery_laws;
pub mod switching_laws;
pub mod guard_laws;
pub mod reset_laws;
pub mod watch_laws;
pub mod memory_laws;
pub mod install_laws;
pub mod snapshot_laws;
pub mod option_laws;
pub mod command_laws;
pub mod screen_laws;
pub mod key_laws;
pub mod detail_laws;
