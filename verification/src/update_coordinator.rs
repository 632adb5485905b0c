//! Keeps update checks, update installation and Session start from overlapping.
//!
//! Each activity holds a lease; a lease is given back with the matching
//! `release_*` method. A Session start cancels a running check and proceeds
//! only once that check has been released.
use crate::text::same_text;
use vstd::prelude::*;

verus! {

/// The abstract state of an `UpdateCoordinator`.
pub struct CoordinatorView {
    /// The request id of the running check, and whether it was asked to stop.
    pub active_check: Option<(Seq<char>, bool)>,
    /// The version being installed.
    pub installing_version: Option<Seq<char>>,
    /// Whether a Session start is waiting for or holding the barrier.
    pub session_start_pending: bool,
}

/// At most one of a check, an installation and a Session start proceeds at a
/// time; a check may run beside a waiting Session start only once asked to stop.
pub open spec fn coordinator_is_consistent(state: CoordinatorView) -> bool {
    &&& state.installing_version is Some ==> state.active_check is None && !state.session_start_pending
    &&& state.active_check matches Some((_, cancelled)) ==> (state.session_start_pending ==> cancelled)
}

struct ActiveCheck {
    request_id: String,
    cancelled: bool,
}

/// The single owner of update and Session-start exclusion.
pub struct UpdateCoordinator {
    active_check: Option<ActiveCheck>,
    installing_version: Option<String>,
    session_start_pending: bool,
}

impl View for UpdateCoordinator {
    type V = CoordinatorView;

    closed spec fn view(&self) -> CoordinatorView {
        CoordinatorView {
            active_check: match self.active_check {
                Some(check) => Some((check.request_id@, check.cancelled)),
                None => None,
            },
            installing_version: match self.installing_version {
                Some(version) => Some(version@),
                None => None,
            },
            session_start_pending: self.session_start_pending,
        }
    }
}

/// The right to run the update check with this request id.
pub struct UpdateCheckLease {
    request_id: String,
}

impl UpdateCheckLease {
    /// The request id the lease was granted for.
    pub closed spec fn request_id(&self) -> Seq<char> {
        self.request_id@
    }
}

/// The right to install this checked version.
pub struct UpdateInstallLease {
    version: String,
}

impl UpdateInstallLease {
    /// The version the lease was granted for.
    pub closed spec fn version(&self) -> Seq<char> {
        self.version@
    }
}

/// The right to start a Session while no update work runs.
pub struct SessionStartBarrier {}

/// How a Session start stands with respect to update work.
pub enum SessionStartGate {
    /// No update work runs: the Session may start.
    Ready(SessionStartBarrier),
    /// The running check was asked to stop; the Session waits for its release.
    AwaitingCheck,
}

/// A fresh coordinator view: nothing runs.
pub open spec fn idle_coordinator() -> CoordinatorView {
    CoordinatorView { active_check: None, installing_version: None, session_start_pending: false }
}

impl UpdateCoordinator {
    /// A coordinator with no activity.
    pub fn new() -> (res: Self)
        ensures
            res@ == idle_coordinator(),
            coordinator_is_consistent(res@),
    {
        UpdateCoordinator { active_check: None, installing_version: None, session_start_pending: false }
    }

    /// Starts an update check, unless any other activity runs.
    pub fn check(&mut self, request_id: &str) -> (res: Result<UpdateCheckLease, String>)
        requires
            coordinator_is_consistent(old(self)@),
        ensures
            coordinator_is_consistent(final(self)@),
            res is Ok <==> (!old(self)@.session_start_pending && old(self)@.installing_version is None
                && old(self)@.active_check is None),
            res is Ok ==> res->Ok_0.request_id() == request_id@ && final(self)@ == (CoordinatorView {
                active_check: Some((request_id@, false)),
                ..old(self)@
            }),
            res is Err ==> final(self)@ == old(self)@,
            res is Err ==> res->Err_0@ == "Update work cannot start during another native activity."@,
    {
        if self.session_start_pending || self.installing_version.is_some() || self.active_check.is_some() {
            return Err(String::from_str("Update work cannot start during another native activity."));
        }
        let owned = request_id.to_string();
        self.active_check = Some(ActiveCheck { request_id: owned.clone(), cancelled: false });
        Ok(UpdateCheckLease { request_id: owned })
    }

    /// Whether the check holding this lease was asked to stop.
    pub fn is_cancelled(&self, lease: &UpdateCheckLease) -> (res: bool)
        ensures
            res == (self@.active_check matches Some((id, cancelled)) && id == lease.request_id()
                && cancelled),
    {
        match &self.active_check {
            Some(check) => check.cancelled && same_text(check.request_id.as_str(), lease.request_id.as_str()),
            None => false,
        }
    }

    /// Gives back a check lease; the check ends if it is still the running one.
    pub fn release_check(&mut self, lease: UpdateCheckLease)
        requires
            coordinator_is_consistent(old(self)@),
        ensures
            coordinator_is_consistent(final(self)@),
            (old(self)@.active_check matches Some((id, _)) && id == lease.request_id()) ==> final(self)@
                == (CoordinatorView { active_check: None, ..old(self)@ }),
            !(old(self)@.active_check matches Some((id, _)) && id == lease.request_id()) ==> final(self)@
                == old(self)@,
    {
        let matches = match &self.active_check {
            Some(check) => same_text(check.request_id.as_str(), lease.request_id.as_str()),
            None => false,
        };
        if matches {
            self.active_check = None;
        }
    }

    /// Starts installing a checked version, unless any other activity runs.
    pub fn install(&mut self, checked_version: &str) -> (res: Result<UpdateInstallLease, String>)
        requires
            coordinator_is_consistent(old(self)@),
        ensures
            coordinator_is_consistent(final(self)@),
            res is Ok <==> (!old(self)@.session_start_pending && old(self)@.installing_version is None
                && old(self)@.active_check is None),
            res is Ok ==> res->Ok_0.version() == checked_version@ && final(self)@ == (CoordinatorView {
                installing_version: Some(checked_version@),
                ..old(self)@
            }),
            res is Err ==> final(self)@ == old(self)@,
            res is Err ==> res->Err_0@ == "Installation cannot overlap a Session or update check."@,
    {
        if self.session_start_pending || self.installing_version.is_some() || self.active_check.is_some() {
            return Err(String::from_str("Installation cannot overlap a Session or update check."));
        }
        let owned = checked_version.to_string();
        self.installing_version = Some(owned.clone());
        Ok(UpdateInstallLease { version: owned })
    }

    /// Gives back an install lease, for instance after the installer failed.
    pub fn release_install(&mut self, lease: UpdateInstallLease)
        requires
            coordinator_is_consistent(old(self)@),
        ensures
            coordinator_is_consistent(final(self)@),
            old(self)@.installing_version == Some(lease.version()) ==> final(self)@ == (CoordinatorView {
                installing_version: None,
                ..old(self)@
            }),
            old(self)@.installing_version != Some(lease.version()) ==> final(self)@ == old(self)@,
    {
        let matches = match &self.installing_version {
            Some(version) => same_text(version.as_str(), lease.version.as_str()),
            None => false,
        };
        if matches {
            self.installing_version = None;
        }
    }

    /// Asks for a Session start: refused while another start waits or while an
    /// update installs; a running check is asked to stop.
    pub fn cancel_for_session_start(&mut self) -> (res: Result<SessionStartGate, String>)
        requires
            coordinator_is_consistent(old(self)@),
        ensures
            coordinator_is_consistent(final(self)@),
            res is Err <==> (old(self)@.session_start_pending || old(self)@.installing_version is Some),
            res is Err ==> final(self)@ == old(self)@,
            old(self)@.session_start_pending ==> res is Err && res->Err_0@ == "Another Session start is already waiting."@,
            !old(self)@.session_start_pending && old(self)@.installing_version is Some ==> res is Err && res->Err_0@
                == "A Formation Lap update is being installed."@,
            res is Ok ==> final(self)@ == (CoordinatorView {
                session_start_pending: true,
                active_check: match old(self)@.active_check {
                    Some((id, _)) => Some((id, true)),
                    None => None,
                },
                ..old(self)@
            }),
            res is Ok ==> (res->Ok_0 is Ready <==> old(self)@.active_check is None),
    {
        if self.session_start_pending {
            return Err(String::from_str("Another Session start is already waiting."));
        }
        if self.installing_version.is_some() {
            return Err(String::from_str("A Formation Lap update is being installed."));
        }
        self.session_start_pending = true;
        match &mut self.active_check {
            Some(check) => {
                check.cancelled = true;
                Ok(SessionStartGate::AwaitingCheck)
            },
            None => Ok(SessionStartGate::Ready(SessionStartBarrier {})),
        }
    }

    /// The barrier of a waiting Session start, once the cancelled check is released.
    pub fn session_start_barrier(&self) -> (res: Option<SessionStartBarrier>)
        ensures
            res is Some <==> (self@.session_start_pending && self@.active_check is None),
    {
        if self.session_start_pending && self.active_check.is_none() {
            Some(SessionStartBarrier {})
        } else {
            None
        }
    }

    /// Ends a Session start: update work may run again.
    pub fn release_session_start(&mut self, barrier: SessionStartBarrier)
        requires
            coordinator_is_consistent(old(self)@),
        ensures
            coordinator_is_consistent(final(self)@),
            final(self)@ == (CoordinatorView { session_start_pending: false, ..old(self)@ }),
    {
        self.session_start_pending = false;
    }
}

/// An update installation and a Session start never proceed together, and no
/// check runs during an installation: whatever sequence of the coordinator's
/// operations produced a state, that state is consistent, and a consistent
/// state never holds an installation beside a pending Session start or a check.
pub proof fn installation_excludes_session_start_and_checks(state: CoordinatorView)
    requires
        coordinator_is_consistent(state),
        state.installing_version is Some,
    ensures
        !state.session_start_pending,
        state.active_check is None,
{
}

} // verus!
