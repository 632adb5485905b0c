//! Decides when update checks may run and when their results become visible.
//!
//! A result that arrives while a Session is not Idle is held back and shown only
//! once the Session returns to Idle.
use crate::identifiers::{is_canonical_uuid, new_uuid};
use crate::model::{
    clone_application_updates, DesktopSettings, FormationLapInstallDecision,
    ApplicationUpdateSnapshot, SessionState, UpdateCheckDecision, UpdateCheckPlan,
    UpdateCheckResult, UpdateCheckTrigger, UpdateSnapshot, UpdateSnapshotView, UpdateStatus,
};
use crate::text::same_text;
use vstd::prelude::*;

verus! {

/// The shortest time between two automatic update checks: one day.
pub const AUTOMATIC_CHECK_INTERVAL_SECONDS: u64 = 86400;

/// Whether an automatic check is due at `now`, given the last automatic check.
pub open spec fn automatic_check_is_due(now: u64, last: Option<u64>) -> bool {
    match last {
        Some(last) => (if now >= last { now - last } else { 0int }) >= AUTOMATIC_CHECK_INTERVAL_SECONDS,
        None => true,
    }
}

/// The abstract state of an `UpdateAdvisor`.
pub struct UpdateAdvisorView {
    pub visible: UpdateSnapshotView,
    pub pending_request_id: Option<Seq<char>>,
    pub deferred_result: Option<UpdateCheckResult>,
}

/// Holds the visible update state, the one pending check and a deferred result.
pub struct UpdateAdvisor {
    visible: UpdateSnapshot,
    pending_request_id: Option<String>,
    deferred_result: Option<UpdateCheckResult>,
}

/// The optional text as characters.
pub open spec fn optional_text(value: Option<String>) -> Option<Seq<char>> {
    match value {
        Some(text) => Some(text@),
        None => None,
    }
}

impl View for UpdateAdvisor {
    type V = UpdateAdvisorView;

    closed spec fn view(&self) -> UpdateAdvisorView {
        UpdateAdvisorView {
            visible: self.visible@,
            pending_request_id: optional_text(self.pending_request_id),
            deferred_result: self.deferred_result,
        }
    }
}

/// The visible state after a result has been applied.
pub open spec fn applied(visible: UpdateSnapshotView, result: UpdateCheckResult) -> UpdateSnapshotView {
    UpdateSnapshotView {
        formation_lap: result.formation_lap,
        applications: result.applications@,
        result_deferred: false,
        ..visible
    }
}

/// The status shown before any check has completed.
pub open spec fn not_checked(status: UpdateStatus) -> bool {
    status matches UpdateStatus::Unknown { reason } && reason@ == "Updates have not been checked yet."@
}

impl UpdateAdvisor {
    /// An advisor with nothing checked yet.
    pub fn new(last_automatic_check_unix_seconds: Option<u64>) -> (res: Self)
        ensures
            not_checked(res@.visible.formation_lap),
            res@.visible.applications.len() == 0,
            res@.visible.last_automatic_check_unix_seconds == last_automatic_check_unix_seconds,
            !res@.visible.result_deferred,
            res@.pending_request_id is None,
            res@.deferred_result is None,
    {
        UpdateAdvisor {
            visible: UpdateSnapshot {
                formation_lap: UpdateStatus::Unknown {
                    reason: String::from_str("Updates have not been checked yet."),
                },
                applications: Vec::new(),
                last_automatic_check_unix_seconds,
                result_deferred: false,
            },
            pending_request_id: None,
            deferred_result: None,
        }
    }

    /// What the window shows: the visible state, the stored time of the last
    /// automatic check, and whether a result is waiting for the Session to end.
    pub fn snapshot(&self, last_automatic_check_unix_seconds: Option<u64>) -> (res: UpdateSnapshot)
        ensures
            res@ == (UpdateSnapshotView {
                last_automatic_check_unix_seconds,
                result_deferred: self@.deferred_result is Some,
                ..self@.visible
            }),
    {
        UpdateSnapshot {
            formation_lap: self.visible.formation_lap.clone(),
            applications: clone_application_updates(&self.visible.applications),
            last_automatic_check_unix_seconds,
            result_deferred: self.deferred_result.is_some(),
        }
    }

    /// Plans an update check, or says why none may run now.
    ///
    /// Checks never run outside an Idle Session and never overlap; automatic
    /// checks also respect the setting and the daily interval.
    pub fn prepare_check(
        &mut self,
        trigger: UpdateCheckTrigger,
        now_unix_seconds: u64,
        session_state: SessionState,
        settings: &DesktopSettings,
        last_automatic_check_unix_seconds: Option<u64>,
    ) -> (res: UpdateCheckDecision)
        ensures
            session_state != SessionState::Idle ==> res is Deferred && final(self)@ == old(self)@,
            session_state == SessionState::Idle && old(self)@.pending_request_id is Some ==> res is InProgress
                && final(self)@ == old(self)@,
            session_state == SessionState::Idle && old(self)@.pending_request_id is None && trigger
                == UpdateCheckTrigger::Automatic && !settings.automatic_update_checks ==> res is Disabled
                && final(self)@ == old(self)@,
            session_state == SessionState::Idle && old(self)@.pending_request_id is None && trigger
                == UpdateCheckTrigger::Automatic && settings.automatic_update_checks
                && !automatic_check_is_due(now_unix_seconds, last_automatic_check_unix_seconds)
                ==> res is NotDue && final(self)@ == old(self)@,
            session_state == SessionState::Idle && old(self)@.pending_request_id is None && (trigger
                == UpdateCheckTrigger::Manual || (settings.automatic_update_checks
                && automatic_check_is_due(now_unix_seconds, last_automatic_check_unix_seconds)))
                ==> (res matches UpdateCheckDecision::Planned(plan) && is_canonical_uuid(plan.request_id@)
                && plan.channel == settings.update_channel && plan.trigger == trigger
                && plan.applications@.len() == 0 && final(self)@ == (UpdateAdvisorView {
                pending_request_id: Some(plan.request_id@),
                ..old(self)@
            })),
    {
        if session_state != SessionState::Idle {
            return UpdateCheckDecision::Deferred;
        }
        if self.pending_request_id.is_some() {
            return UpdateCheckDecision::InProgress;
        }
        if trigger == UpdateCheckTrigger::Automatic {
            if !settings.automatic_update_checks {
                return UpdateCheckDecision::Disabled;
            }
            match last_automatic_check_unix_seconds {
                Some(last_check) => {
                    let elapsed = now_unix_seconds.saturating_sub(last_check);
                    if elapsed < AUTOMATIC_CHECK_INTERVAL_SECONDS {
                        return UpdateCheckDecision::NotDue;
                    }
                },
                None => {},
            }
        }
        let request_id = new_uuid();
        self.pending_request_id = Some(request_id.clone());
        UpdateCheckDecision::Planned(
            UpdateCheckPlan {
                request_id,
                channel: settings.update_channel,
                trigger,
                applications: Vec::new(),
            },
        )
    }

    /// Accepts the result of the pending check.
    ///
    /// A result for any other request is refused. An accepted result is shown at
    /// once in an Idle Session and otherwise held until the Session is Idle.
    pub fn complete_check(&mut self, result: UpdateCheckResult, session_state: SessionState) -> (res:
        Result<(), String>)
        ensures
            old(self)@.pending_request_id != Some(result.request_id@) ==> res is Err && final(self)@
                == old(self)@,
            old(self)@.pending_request_id == Some(result.request_id@) ==> res is Ok,
            old(self)@.pending_request_id == Some(result.request_id@) && session_state
                == SessionState::Idle ==> final(self)@ == (UpdateAdvisorView {
                visible: applied(old(self)@.visible, result),
                pending_request_id: None,
                ..old(self)@
            }),
            old(self)@.pending_request_id == Some(result.request_id@) && session_state
                != SessionState::Idle ==> final(self)@ == (UpdateAdvisorView {
                pending_request_id: None,
                deferred_result: Some(result),
                ..old(self)@
            }),
    {
        let matches = match &self.pending_request_id {
            Some(pending) => same_text(pending.as_str(), result.request_id.as_str()),
            None => false,
        };
        if !matches {
            return Err(String::from_str("update-check result does not match the pending request"));
        }
        self.pending_request_id = None;
        if session_state == SessionState::Idle {
            self.apply_result(result);
        } else {
            self.deferred_result = Some(result);
        }
        Ok(())
    }

    /// Forgets the pending check if it has the given id.
    pub fn cancel_check(&mut self, request_id: &str) -> (res: bool)
        ensures
            res == (old(self)@.pending_request_id == Some(request_id@)),
            res ==> final(self)@ == (UpdateAdvisorView { pending_request_id: None, ..old(self)@ }),
            !res ==> final(self)@ == old(self)@,
    {
        let matches = match &self.pending_request_id {
            Some(pending) => same_text(pending.as_str(), request_id),
            None => false,
        };
        if matches {
            self.pending_request_id = None;
        }
        matches
    }

    /// Shows a held result once the Session is Idle.
    pub fn release_deferred_if_safe(&mut self, session_state: SessionState)
        ensures
            session_state == SessionState::Idle && old(self)@.deferred_result is Some
                ==> final(self)@ == (UpdateAdvisorView {
                visible: applied(old(self)@.visible, old(self)@.deferred_result->0),
                deferred_result: None,
                ..old(self)@
            }),
            !(session_state == SessionState::Idle && old(self)@.deferred_result is Some)
                ==> final(self)@ == old(self)@,
    {
        if session_state == SessionState::Idle {
            let deferred = self.deferred_result.take();
            match deferred {
                Some(result) => self.apply_result(result),
                None => {},
            }
        }
    }

    /// Whether a checked Formation Lap update may be installed now.
    pub fn prepare_formation_lap_install(&self, session_state: SessionState) -> (res:
        FormationLapInstallDecision)
        ensures
            session_state != SessionState::Idle ==> res is Deferred,
            session_state == SessionState::Idle ==> match self@.visible.formation_lap {
                UpdateStatus::UpdateAvailable { latest_version, .. } => res matches FormationLapInstallDecision::Ready {
                    latest_version: ready,
                } && ready@ == latest_version@,
                _ => res is NoUpdate,
            },
    {
        if session_state != SessionState::Idle {
            return FormationLapInstallDecision::Deferred;
        }
        match &self.visible.formation_lap {
            UpdateStatus::UpdateAvailable { latest_version, .. } => {
                FormationLapInstallDecision::Ready { latest_version: latest_version.clone() }
            },
            _ => FormationLapInstallDecision::NoUpdate,
        }
    }

    fn apply_result(&mut self, result: UpdateCheckResult)
        ensures
            final(self)@ == (UpdateAdvisorView {
                visible: applied(old(self)@.visible, result),
                ..old(self)@
            }),
    {
        let UpdateCheckResult { request_id: _, formation_lap, applications } = result;
        self.visible.formation_lap = formation_lap;
        self.visible.applications = applications;
        self.visible.result_deferred = false;
    }
}

} // verus!
