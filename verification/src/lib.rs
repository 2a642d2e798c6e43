//! The decisions of wtui, a desktop manager for Git worktrees.
pub mod command;
pub mod command_laws;
pub mod config;
pub mod config_laws;
pub mod diff;
pub mod diff_laws;
pub mod encoding;
pub mod lines;
pub mod model_laws;
pub mod number;
pub mod operation_laws;
pub mod operations;
pub mod path;
pub mod path_laws;
pub mod porcelain;
pub mod porcelain_laws;
pub mod screen_laws;
pub mod slug;
pub mod state;
pub mod state_laws;
pub mod step;
pub mod step_laws;
pub mod text;
pub mod text_laws;
pub mod truncate;
pub mod update;
pub mod update_laws;
pub mod view;
pub mod view_laws;
pub mod views;
