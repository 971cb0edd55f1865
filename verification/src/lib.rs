//! Task, worktree and session bookkeeping for the agency tool.
pub mod text;
pub mod keys;
pub mod git;
pub mod keybindings;
pub mod log;
pub mod paths;
pub mod term;
pub mod config;
pub mod task;
pub mod bootstrap;
pub mod colors;
pub mod command;
pub mod content;
pub mod split;
pub mod table;
pub mod files;
pub mod fzf;
pub mod session;
pub mod task_columns;
pub mod tmux;
pub mod tty;
pub mod tui;
pub mod which;
pub mod wizard;
