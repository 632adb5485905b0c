//! The bounded local diagnostic log: when it rotates and which entries an
//! export includes.
use crate::model::DiagnosticEntry;
use vstd::prelude::*;

verus! {

/// The size, in bytes, the live log may reach before it rotates.
pub const MAX_LOG_BYTES: u64 = 65536;

/// The most entries a diagnostic export includes.
pub const MAX_EXPORT_ENTRIES: usize = 128;

/// Whether appending a line to the live log rotates it first: when the live
/// log and the line together would exceed the size limit.
pub fn log_rotation_needed(current_length: u64, line_length: usize) -> (res: bool)
    ensures
        res == (current_length + line_length > MAX_LOG_BYTES),
{
    let line_length = line_length as u64;
    current_length.saturating_add(line_length) > MAX_LOG_BYTES
}

/// The newest entries of the rotated and live logs read in order, at most the
/// export limit.
pub fn recent_entries(entries: Vec<DiagnosticEntry>) -> (res: Vec<DiagnosticEntry>)
    ensures
        entries@.len() <= MAX_EXPORT_ENTRIES ==> res@ == entries@,
        entries@.len() > MAX_EXPORT_ENTRIES ==> res@ == entries@.subrange(
            entries@.len() - MAX_EXPORT_ENTRIES,
            entries@.len() as int,
        ),
{
    if entries.len() <= MAX_EXPORT_ENTRIES {
        return entries;
    }
    let start = entries.len() - MAX_EXPORT_ENTRIES;
    let mut kept: Vec<DiagnosticEntry> = Vec::new();
    let mut index = start;
    while index < entries.len()
        invariant
            start <= index <= entries@.len(),
            start == entries@.len() - MAX_EXPORT_ENTRIES,
            kept@ == entries@.subrange(start as int, index as int),
        decreases entries@.len() - index,
    {
        kept.push(entries[index].clone());
        index = index + 1;
        assert(kept@ =~= entries@.subrange(start as int, index as int));
    }
    kept
}

} // verus!
