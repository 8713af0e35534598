//! The decision logic of the Qingjian Android keyboard shell, verified with Verus.

pub mod command;
pub mod touch;
pub mod text;
pub mod escape;
pub mod lines;
pub mod recent;
pub mod config;
pub mod action;
pub mod chooser;
pub mod paging;
pub mod emoji_panel;
pub mod predict;
pub mod outbox;
pub mod clipboard;
pub mod fingers;
pub mod presses;
pub mod bar;
pub mod popup;
pub mod dispatch;
pub mod config_watch;
