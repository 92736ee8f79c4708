pub mod commands;
pub mod config;
pub mod content_parser;
pub mod date;
pub mod editor;
pub mod list_ui;
pub mod task;
pub mod text;
