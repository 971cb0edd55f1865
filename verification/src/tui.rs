//! State machines behind the interactive terminal interface: each component
//! takes key or mouse events and returns what the caller should do next.
pub mod command_log;
pub mod confirm_dialog;
pub mod select_menu;
pub mod task_table;
pub mod text_input;
pub mod file_input_overlay;
pub mod files_overlay;
pub mod input_overlay;
pub mod app;
pub mod layout;
pub mod help_bar;
pub mod state;
