//! Formation Lap: Racing Profiles, Launch Recipes and the Session state machine.
pub mod commands;
pub mod contracts;
pub mod desktop_host;
pub mod diagnostics;
pub mod discovery_catalog;
pub mod document_recovery;
pub mod errors;
pub mod formation_core;
pub mod host;
pub mod identifiers;
pub mod keyed;
pub mod launch_recipe;
pub mod model;
pub mod native_file_picker;
pub mod native_updater;
pub mod privilege_broker;
pub mod privilege_protocol;
pub mod process_runtime;
pub mod process_tree;
pub mod profile_library;
pub mod release_identity;
pub mod session_journal;
pub mod settings;
pub mod text;
pub mod update_advisor;
pub mod update_coordinator;
pub mod update_providers;
