//! The authoritative snapshot rendered by the desktop window.
use crate::model::{
    ApplicationProcessSnapshot, DesktopSettings, ProcessConfirmationSnapshot, ProfileSummary,
    RacingProfile, SessionSnapshot, SessionState, UpdateSnapshot, UpdateStatus,
};
use vstd::prelude::*;

verus! {

/// Authoritative native state rendered by the window.
#[derive(Debug)]
pub struct AppSnapshot {
    pub application_name: String,
    pub foundation_status: String,
    pub profiles: Vec<ProfileSummary>,
    pub selected_profile: Option<RacingProfile>,
    pub settings: DesktopSettings,
    pub updates: UpdateSnapshot,
    pub application_processes: Vec<ApplicationProcessSnapshot>,
    pub pending_process_confirmation: Option<ProcessConfirmationSnapshot>,
    pub session: SessionSnapshot,
}

impl AppSnapshot {
    /// The snapshot of a fresh installation: no profiles, default settings, an idle Session.
    pub fn foundation() -> (res: Self)
        ensures
            res.application_name@ == "Formation Lap"@,
            res.foundation_status@ == "ready"@,
            res.profiles@.len() == 0,
            res.selected_profile is None,
            res.settings == crate::model::default_desktop_settings(),
            res.application_processes@.len() == 0,
            res.pending_process_confirmation is None,
            res.session.state == SessionState::Idle,
            res.session.active_profile_id is None,
            res.session.applications@.len() == 0,
    {
        AppSnapshot {
            application_name: String::from_str("Formation Lap"),
            foundation_status: String::from_str("ready"),
            profiles: Vec::new(),
            selected_profile: None,
            settings: DesktopSettings::defaults(),
            updates: crate::model::UpdateSnapshot {
                formation_lap: UpdateStatus::Unknown {
                    reason: String::from_str("Updates have not been checked yet."),
                },
                applications: Vec::new(),
                last_automatic_check_unix_seconds: None,
                result_deferred: false,
            },
            application_processes: Vec::new(),
            pending_process_confirmation: None,
            session: SessionSnapshot::idle(),
        }
    }
}

} // verus!
