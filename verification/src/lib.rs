use vstd::prelude::*;

pub mod text;
pub mod kv;
pub mod glob;
pub mod config;
pub mod protocol;
pub mod crypto;
pub mod pack;
pub mod config_file;
pub mod server;
pub mod power_save_blocker;
pub mod dock;
pub mod native_theme;
pub mod content_tracing;
pub mod protocol_handler;
pub mod safe_storage;
pub mod native_menu;
pub mod native_image;
pub mod cli;
pub mod rendering;
pub mod auto_updater;
pub mod process_info;
pub mod notifications;
pub mod app_module;
pub mod context_bridge;
pub mod global_shortcut;
pub mod session;
pub mod crash_reporter;
pub mod bridge;
pub mod nc_parser;
pub mod nc_render;
pub mod cpp_compiler;
pub mod android;
pub mod config_override;
pub mod bundle;
pub mod scripts;
pub mod updates;
pub mod project_init;

verus! {
} // verus!
