//! Which copy of a stored document is trusted when the live copy cannot be
//! read: the live document first, then its backup, which is restored in its
//! place.
use vstd::prelude::*;

verus! {

/// How many numbered copies of an unreadable live document are kept.
pub const CORRUPT_ARTIFACT_SLOTS: usize = 2;

/// The outcome of reading and decoding one stored document.
#[derive(Clone, Copy, Debug, PartialEq, Eq, Structural)]
pub enum DocumentLoad {
    Loaded,
    /// The document declares a schema this version does not read.
    UnsupportedSchema,
    /// The document is missing, unreadable or malformed.
    Unreadable,
}

/// What to do after reading the live document.
#[derive(Clone, Copy, Debug, PartialEq, Eq, Structural)]
pub enum LiveDocumentChoice {
    UseLive,
    ReportLiveFailure,
    ReadBackup,
}

/// What to do after reading the backup of an unreadable live document.
#[derive(Clone, Copy, Debug, PartialEq, Eq, Structural)]
pub enum BackupDocumentChoice {
    /// Keep a copy of the live document, restore the backup in its place and use it.
    RestoreBackup,
    ReportBackupFailure,
    ReportLiveFailure,
}

/// A live document is used when it loads; a schema this version does not
/// read is reported and never replaced; otherwise the backup is read when
/// there is one.
pub fn live_document_choice(live: DocumentLoad, backup_exists: bool) -> (res: LiveDocumentChoice)
    ensures
        live == DocumentLoad::Loaded ==> res == LiveDocumentChoice::UseLive,
        live == DocumentLoad::UnsupportedSchema ==> res == LiveDocumentChoice::ReportLiveFailure,
        live == DocumentLoad::Unreadable ==> res == (if backup_exists {
            LiveDocumentChoice::ReadBackup
        } else {
            LiveDocumentChoice::ReportLiveFailure
        }),
{
    match live {
        DocumentLoad::Loaded => LiveDocumentChoice::UseLive,
        DocumentLoad::UnsupportedSchema => LiveDocumentChoice::ReportLiveFailure,
        DocumentLoad::Unreadable => if backup_exists {
            LiveDocumentChoice::ReadBackup
        } else {
            LiveDocumentChoice::ReportLiveFailure
        },
    }
}

/// A backup that loads replaces the live document; a backup of a schema this
/// version does not read is reported; an unreadable backup leaves the live
/// document's failure to be reported.
pub fn backup_document_choice(backup: DocumentLoad) -> (res: BackupDocumentChoice)
    ensures
        res == match backup {
            DocumentLoad::Loaded => BackupDocumentChoice::RestoreBackup,
            DocumentLoad::UnsupportedSchema => BackupDocumentChoice::ReportBackupFailure,
            DocumentLoad::Unreadable => BackupDocumentChoice::ReportLiveFailure,
        },
{
    match backup {
        DocumentLoad::Loaded => BackupDocumentChoice::RestoreBackup,
        DocumentLoad::UnsupportedSchema => BackupDocumentChoice::ReportBackupFailure,
        DocumentLoad::Unreadable => BackupDocumentChoice::ReportLiveFailure,
    }
}

/// The slot that keeps a copy of an unreadable live document: the first free
/// one, or the first when every slot is taken.
pub fn corrupt_artifact_slot(occupied: &Vec<bool>) -> (res: usize)
    requires
        occupied@.len() == CORRUPT_ARTIFACT_SLOTS,
    ensures
        res < CORRUPT_ARTIFACT_SLOTS,
        res != 0 ==> !occupied@[res as int],
        forall|slot: int| 0 <= slot < res ==> occupied@[slot],
        res == 0 ==> !occupied@[0] || forall|slot: int| 0 <= slot < CORRUPT_ARTIFACT_SLOTS ==> occupied@[slot],
{
    let mut slot: usize = 0;
    while slot < CORRUPT_ARTIFACT_SLOTS
        invariant
            slot <= CORRUPT_ARTIFACT_SLOTS,
            occupied@.len() == CORRUPT_ARTIFACT_SLOTS,
            forall|earlier: int| 0 <= earlier < slot ==> occupied@[earlier],
        decreases CORRUPT_ARTIFACT_SLOTS - slot,
    {
        if !occupied[slot] {
            return slot;
        }
        slot = slot + 1;
    }
    0
}

} // verus!
