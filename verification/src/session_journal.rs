//! The durable journal of an active Session: what is stored, and which stored
//! journals are accepted.
use crate::errors::CoreError;
use crate::formation_core::RecoveredSession;
use crate::model::{ApplicationProcessSnapshot, SessionSnapshot};
use vstd::prelude::*;

verus! {

/// The schema version of the Session journal.
pub const SESSION_JOURNAL_SCHEMA_VERSION: u32 = 1;

/// The stored Session journal.
#[derive(Debug)]
pub struct SessionJournalDocument {
    pub schema_version: u32,
    pub session: SessionSnapshot,
    pub application_processes: Vec<ApplicationProcessSnapshot>,
}

/// The journal to store for a Session and its Processes.
pub fn journal_document(
    session: SessionSnapshot,
    application_processes: Vec<ApplicationProcessSnapshot>,
) -> (res: SessionJournalDocument)
    ensures
        res.schema_version == SESSION_JOURNAL_SCHEMA_VERSION,
        res.session == session,
        res.application_processes == application_processes,
{
    SessionJournalDocument { schema_version: SESSION_JOURNAL_SCHEMA_VERSION, session, application_processes }
}

/// The Session a stored journal recorded; a journal of another schema is refused.
pub fn recovered_from_document(document: SessionJournalDocument) -> (res: Result<RecoveredSession, CoreError>)
    ensures
        document.schema_version != SESSION_JOURNAL_SCHEMA_VERSION ==> res == Err::<RecoveredSession, CoreError>(
            CoreError::UnsupportedSessionJournalSchema(document.schema_version),
        ),
        document.schema_version == SESSION_JOURNAL_SCHEMA_VERSION ==> res is Ok && res->Ok_0.session == document.session
            && res->Ok_0.application_processes == document.application_processes,
{
    if document.schema_version != SESSION_JOURNAL_SCHEMA_VERSION {
        return Err(CoreError::UnsupportedSessionJournalSchema(document.schema_version));
    }
    let SessionJournalDocument { schema_version: _, session, application_processes } = document;
    Ok(RecoveredSession { session, application_processes })
}

} // verus!
