//! Rules for removing temporary files.

use vstd::prelude::*;

verus! {

/// How many paths may wait for removal.
pub const CLEANUP_CHANNEL_CAPACITY: usize = 10_000;

/// How long waiting removals may delay a shutdown.
pub const CLEANUP_DRAIN_TIMEOUT_SECS: u64 = 5;

/// What a sweep over a directory did.
#[derive(Debug)]
pub struct StaleTempCleanup {
    pub scanned_entries: usize,
    pub removed_paths: Vec<String>,
}

/// What is known of a directory entry.
#[derive(Debug, Clone, Copy, PartialEq, Eq, Structural)]
pub enum EntryFacts {
    /// Its metadata cannot be read.
    Unreadable,
    /// Its time of change is not known.
    Undated,
    /// Its age in nanoseconds; nothing where it was changed in the future.
    Dated { age_nanos: Option<u128>, is_dir: bool },
}

/// What to do with an entry.
#[derive(Debug, Clone, Copy, PartialEq, Eq, Structural)]
pub enum EntryAction {
    Keep,
    RemoveFile,
    RemoveDir,
}

/// Only an entry that is known to be old enough goes.
pub open spec fn entry_action(facts: EntryFacts, max_age_nanos: u128) -> EntryAction {
    match facts {
        EntryFacts::Dated { age_nanos, is_dir } => {
            let age = match age_nanos {
                Some(age) => age,
                None => 0,
            };
            if age < max_age_nanos {
                EntryAction::Keep
            } else if is_dir {
                EntryAction::RemoveDir
            } else {
                EntryAction::RemoveFile
            }
        },
        _ => EntryAction::Keep,
    }
}

impl StaleTempCleanup {
    pub fn new() -> (r: Self)
        ensures
            r.scanned_entries == 0,
            r.removed_paths@.len() == 0,
    {
        StaleTempCleanup { scanned_entries: 0, removed_paths: Vec::new() }
    }

    /// The number of removed entries.
    pub fn removed_entries(&self) -> (n: usize)
        ensures
            n == self.removed_paths@.len(),
    {
        self.removed_paths.len()
    }

    /// Count an entry and decide on it.
    pub fn scan(&mut self, facts: EntryFacts, max_age_nanos: u128) -> (action: EntryAction)
        requires
            old(self).scanned_entries < usize::MAX,
        ensures
            action == entry_action(facts, max_age_nanos),
            final(self).scanned_entries == old(self).scanned_entries + 1,
            final(self).removed_paths@ == old(self).removed_paths@,
    {
        self.scanned_entries = self.scanned_entries + 1;
        match facts {
            EntryFacts::Dated { age_nanos, is_dir } => {
                let age: u128 = match age_nanos {
                    Some(age) => age,
                    None => 0,
                };
                if age < max_age_nanos {
                    EntryAction::Keep
                } else if is_dir {
                    EntryAction::RemoveDir
                } else {
                    EntryAction::RemoveFile
                }
            },
            _ => EntryAction::Keep,
        }
    }

    /// Note how a removal went; only what is gone is listed.
    pub fn removed(&mut self, path: String, ok: bool)
        ensures
            final(self).scanned_entries == old(self).scanned_entries,
            final(self).removed_paths@ == (if ok {
                old(self).removed_paths@.push(path)
            } else {
                old(self).removed_paths@
            }),
    {
        if ok {
            self.removed_paths.push(path);
        }
    }
}

/// How removing a file failed.
#[derive(Debug, Clone, Copy, PartialEq, Eq, Structural)]
pub enum RemoveFailure {
    NotFound,
    IsDirectory,
    Other,
}

/// What follows an attempt to remove a path as a file.
#[derive(Debug, Clone, Copy, PartialEq, Eq, Structural)]
pub enum RemoveNext {
    Done,
    RemoveDir,
    GiveUp,
}

/// In the background a path that turns out to be a directory is removed as
/// one; what is gone already is fine.
pub fn remove_path_async(outcome: Result<(), RemoveFailure>) -> (next: RemoveNext)
    ensures
        next == (match outcome {
            Ok(_) => RemoveNext::Done,
            Err(RemoveFailure::NotFound) => RemoveNext::Done,
            Err(RemoveFailure::IsDirectory) => RemoveNext::RemoveDir,
            Err(RemoveFailure::Other) => RemoveNext::GiveUp,
        }),
{
    match outcome {
        Ok(_) => RemoveNext::Done,
        Err(RemoveFailure::NotFound) => RemoveNext::Done,
        Err(RemoveFailure::IsDirectory) => RemoveNext::RemoveDir,
        Err(RemoveFailure::Other) => RemoveNext::GiveUp,
    }
}

/// Without a background task every other failure is taken for a directory,
/// as some systems do not say that it is one.
pub fn remove_path_sync(outcome: Result<(), RemoveFailure>) -> (next: RemoveNext)
    ensures
        next == (match outcome {
            Ok(_) => RemoveNext::Done,
            Err(RemoveFailure::NotFound) => RemoveNext::Done,
            _ => RemoveNext::RemoveDir,
        }),
{
    match outcome {
        Ok(_) => RemoveNext::Done,
        Err(RemoveFailure::NotFound) => RemoveNext::Done,
        Err(RemoveFailure::IsDirectory) => RemoveNext::RemoveDir,
        Err(RemoveFailure::Other) => RemoveNext::RemoveDir,
    }
}

/// Whether a path was queued for removal.
#[derive(Debug, Clone, Copy, PartialEq, Eq, Structural)]
pub enum QueueOutcome {
    Queued,
    Full,
    Closed,
}

/// What a guard does when it goes.
#[derive(Debug, Clone, Copy, PartialEq, Eq, Structural)]
pub enum GuardAction {
    Nothing,
    /// Remove the path on the spot.
    RemoveNow,
}

/// A path that could not be queued is removed at once, so none is forgotten.
pub fn guard_action(path_is_empty: bool, outcome: QueueOutcome) -> (action: GuardAction)
    ensures
        action == (if path_is_empty || outcome == QueueOutcome::Queued {
            GuardAction::Nothing
        } else {
            GuardAction::RemoveNow
        }),
{
    if path_is_empty {
        return GuardAction::Nothing;
    }
    match outcome {
        QueueOutcome::Queued => GuardAction::Nothing,
        QueueOutcome::Full => GuardAction::RemoveNow,
        QueueOutcome::Closed => GuardAction::RemoveNow,
    }
}

/// Milliseconds that draining may still take; nothing once the time is up.
pub fn drain_remaining_ms(elapsed_ms: u64) -> (r: Option<u64>)
    ensures
        r == (if elapsed_ms >= CLEANUP_DRAIN_TIMEOUT_SECS * 1000 {
            None
        } else {
            Some((CLEANUP_DRAIN_TIMEOUT_SECS * 1000 - elapsed_ms) as u64)
        }),
{
    let budget_ms: u64 = CLEANUP_DRAIN_TIMEOUT_SECS * 1000;
    if elapsed_ms >= budget_ms {
        None
    } else {
        Some(budget_ms - elapsed_ms)
    }
}

/// Only what is known to be old enough is removed, as what it is; and what is
/// removed at one age is removed at every higher one.
pub proof fn lemma_only_old_entries_go(facts: EntryFacts, age: u128, older: u128, max: u128, dir: bool)
    requires
        age <= older,
    ensures
        !(facts is Dated) ==> entry_action(facts, max) is Keep,
        ({
            let at = |a: u128| entry_action(
                EntryFacts::Dated { age_nanos: Some(a), is_dir: dir },
                max,
            );
            &&& at(age) is Keep <==> age < max
            &&& at(age) is RemoveDir <==> age >= max && dir
            &&& at(age) is RemoveFile <==> age >= max && !dir
            &&& at(age) !is Keep ==> at(older) == at(age)
        }),
        max > 0 ==> entry_action(EntryFacts::Dated { age_nanos: None, is_dir: dir }, max) is Keep,
{
}

} // verus!
