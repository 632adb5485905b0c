//! What the core asks of its host: storage, clock, file-system facts and the
//! parts of the Curated Catalog that are read from bundled documents.
//!
//! The host performs the work; the core decides what its answers mean, and
//! states what holds whatever the host answered.
use crate::launch_recipe::GameLaunchDiagnostic;
use crate::model::{
    ApplicationProcessSnapshot, ApplicationRequirement, CatalogUpdateProvider, CloseSessionSettings,
    DesktopSettings, DiagnosticEntry, LaunchRecipe, RacingProfile, SessionSnapshot, VrLaunchMode,
};
use vstd::prelude::*;

verus! {

/// A failure of local storage.
#[derive(Debug, PartialEq, Eq)]
pub struct StorageFailure {
    pub message: String,
    /// Whether stored data could not be read, as opposed to written.
    pub invalid_data: bool,
}

/// The persisted local settings.
#[derive(Clone, Debug)]
pub struct SettingsDocument {
    pub schema_version: u32,
    pub selected_profile_id: Option<String>,
    pub desktop: DesktopSettings,
    pub last_automatic_update_check_unix_seconds: Option<u64>,
}

/// An application of a portable Racing Profile: no ids.
#[derive(Clone, Debug)]
pub struct PortableProfileApplication {
    pub name: String,
    pub launch_recipe: LaunchRecipe,
}

/// A Supporting Application of a portable Racing Profile.
#[derive(Clone, Debug)]
pub struct PortableSupportingApplication {
    pub application: PortableProfileApplication,
    pub requirement: ApplicationRequirement,
    pub keep_running: bool,
}

/// A Racing Profile as exported for sharing: everything but the ids.
#[derive(Clone, Debug)]
pub struct PortableRacingProfile {
    pub schema_version: u32,
    pub name: String,
    pub primary_sim: PortableProfileApplication,
    pub supporting_applications: Vec<PortableSupportingApplication>,
    pub vr_enabled: bool,
    pub preferred_vr_launch_mode: Option<VrLaunchMode>,
    pub close_session: CloseSessionSettings,
}

/// The host of the core.
pub trait CoreHost {
    /// Stores a Racing Profile document, replacing an earlier one with its id.
    fn write_profile(&mut self, profile: &RacingProfile) -> Result<(), StorageFailure>;

    /// Removes a Racing Profile document, keeping a backup.
    fn remove_profile(&mut self, profile_id: &str) -> Result<(), StorageFailure>;

    /// Whether a path names an existing file.
    fn executable_exists(&mut self, path: &str) -> bool;

    /// The canonical form of an existing path.
    fn canonical_path(&mut self, path: &str) -> Option<String>;

    /// Stores the settings document.
    fn write_settings(&mut self, settings: &SettingsDocument) -> Result<(), StorageFailure>;

    /// Stores the active Session journal.
    fn persist_session_journal(
        &mut self,
        session: &SessionSnapshot,
        processes: &Vec<ApplicationProcessSnapshot>,
    ) -> Result<(), StorageFailure>;

    /// Removes the active Session journal.
    fn clear_session_journal(&mut self) -> Result<(), StorageFailure>;

    /// Appends a command outcome to the local diagnostic log.
    fn record_diagnostic(&mut self, event: &str, outcome: &str);

    /// The most recent entries of the local diagnostic log.
    fn recent_diagnostics(&mut self) -> Vec<DiagnosticEntry>;

    /// Stores the last Test Game Launch diagnostic.
    fn persist_game_launch_diagnostic(&mut self, diagnostic: &GameLaunchDiagnostic) -> Result<(), StorageFailure>;

    /// Writes a portable Racing Profile document.
    fn encode_portable_profile(&mut self, profile: &PortableRacingProfile) -> Result<String, String>;

    /// Reads a portable Racing Profile document.
    fn decode_portable_profile(&mut self, document: &str) -> Result<PortableRacingProfile, String>;

    /// Milliseconds on a monotonic clock.
    fn now_milliseconds(&mut self) -> u64;

    /// The running platform's name.
    fn platform(&mut self) -> String;

    /// The Curated Catalog's Launch Recipe for a Primary Sim in the chosen VR mode.
    fn resolve_primary_launch_recipe(
        &mut self,
        recipe: &LaunchRecipe,
        vr_enabled: bool,
        preferred_vr_launch_mode: Option<VrLaunchMode>,
    ) -> Result<LaunchRecipe, String>;

    /// The Curated Catalog's update provider for an application name.
    fn update_provider_for_name(&mut self, name: &str) -> Option<CatalogUpdateProvider>;
}

} // verus!
