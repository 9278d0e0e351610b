pub mod text;
pub mod state_machine;
pub mod ingest;
pub mod sse_client;
pub mod config;
pub mod plugin_installer;
pub mod tray;
pub mod settings_store;
