//! Opening a store and flushing it in the background.

use crate::text::{decimal, decimal_of, lemma_decimal_value};
use vstd::prelude::*;
use vstd::string::StringExecFns;

verus! {

/// Why a store could not be opened.
#[derive(Debug, Clone, Copy, PartialEq, Eq, Structural)]
pub enum StoreFailure {
    /// The store says that its contents are corrupt.
    Corrupted,
    /// Reading it met invalid data.
    InvalidData,
    Other,
}

/// Whether the file on disk is broken, as opposed to locked or missing.
pub fn is_corruption_error(failure: StoreFailure) -> (r: bool)
    ensures
        r == (failure != StoreFailure::Other),
{
    match failure {
        StoreFailure::Corrupted => true,
        StoreFailure::InvalidData => true,
        StoreFailure::Other => false,
    }
}

/// What to do after trying to open a store.
#[derive(Debug, Clone, Copy, PartialEq, Eq, Structural)]
pub enum OpenAction {
    /// Use it.
    Ready,
    /// Move the file aside and open a fresh one.
    Rotate,
    /// Report the failure as it is.
    Fail,
    /// Report the failure with [`recreate_context`].
    FailAfterRotation,
}

/// A corrupt store is moved aside once; every other failure is reported.
pub fn open_or_rotate_corrupt_store(rotated: bool, outcome: Result<(), StoreFailure>) -> (action:
    OpenAction)
    ensures
        action == (match outcome {
            Ok(_) => OpenAction::Ready,
            Err(failure) => if rotated {
                OpenAction::FailAfterRotation
            } else if failure != StoreFailure::Other {
                OpenAction::Rotate
            } else {
                OpenAction::Fail
            },
        }),
{
    match outcome {
        Ok(_) => OpenAction::Ready,
        Err(failure) => {
            if rotated {
                OpenAction::FailAfterRotation
            } else if is_corruption_error(failure) {
                OpenAction::Rotate
            } else {
                OpenAction::Fail
            }
        },
    }
}

/// What stands before a failure to open the fresh store.
pub fn recreate_context(kind: &str, path: &str) -> (s: String)
    ensures
        s@ == "failed to recreate "@ + kind@ + " redb store after rotating "@ + path@,
{
    let mut s = "failed to recreate ".to_owned();
    s.append(kind);
    s.append(" redb store after rotating ");
    s.append(path);
    s
}

/// What stands before a failure to move the file aside.
pub fn rotate_context(path: &str, rotated_path: &str) -> (s: String)
    ensures
        s@ == "failed to rotate corrupt redb store "@ + path@ + " to "@ + rotated_path@,
{
    let mut s = "failed to rotate corrupt redb store ".to_owned();
    s.append(path);
    s.append(" to ");
    s.append(rotated_path);
    s
}

/// The path ends in no file name.
pub fn no_file_name_error(path: &str) -> (s: String)
    ensures
        s@ == "redb store path "@ + path@ + " has no file name to rotate"@,
{
    let mut s = "redb store path ".to_owned();
    s.append(path);
    s.append(" has no file name to rotate");
    s
}

/// Every name is taken.
pub fn no_free_name_error(path: &str) -> (s: String)
    ensures
        s@ == "failed to allocate unique corrupt-store path for "@ + path@,
{
    let mut s = "failed to allocate unique corrupt-store path for ".to_owned();
    s.append(path);
    s
}

/// The name of a store that was moved aside at `timestamp`.
pub open spec fn corrupt_name(file_name: Seq<char>, timestamp: nat, attempt: nat) -> Seq<char> {
    if attempt == 0 {
        file_name + ".corrupt."@ + decimal(timestamp)
    } else {
        file_name + ".corrupt."@ + decimal(timestamp) + "."@ + decimal(attempt)
    }
}

pub fn corrupt_store_name(file_name: &str, timestamp_ms: u64, attempt: u16) -> (s: String)
    ensures
        s@ == corrupt_name(file_name@, timestamp_ms as nat, attempt as nat),
{
    let mut s = file_name.to_owned();
    s.append(".corrupt.");
    s.append(decimal_of(timestamp_ms).as_str());
    if attempt != 0 {
        s.append(".");
        s.append(decimal_of(attempt as u64).as_str());
    }
    s
}

/// What to do after looking whether a name is taken.
#[derive(Debug, Clone, Copy, PartialEq, Eq, Structural)]
pub enum NameSearch {
    Use,
    Try { attempt: u16 },
    Exhausted,
}

/// The first free name is used; after the last one the search ends.
pub fn next_corrupt_store_path(attempt: u16, taken: bool) -> (r: NameSearch)
    ensures
        r == (if !taken {
            NameSearch::Use
        } else if attempt < u16::MAX {
            NameSearch::Try { attempt: (attempt + 1) as u16 }
        } else {
            NameSearch::Exhausted
        }),
{
    if !taken {
        NameSearch::Use
    } else if attempt < u16::MAX {
        NameSearch::Try { attempt: attempt + 1 }
    } else {
        NameSearch::Exhausted
    }
}

/// Each attempt tries another name.
pub proof fn lemma_attempts_have_distinct_names(file_name: Seq<char>, timestamp: nat, a: nat, b: nat)
    requires
        a != b,
    ensures
        corrupt_name(file_name, timestamp, a) != corrupt_name(file_name, timestamp, b),
{
    let base = file_name + ".corrupt."@ + decimal(timestamp);
    reveal_strlit(".");
    lemma_decimal_value(a);
    lemma_decimal_value(b);
    let na = corrupt_name(file_name, timestamp, a);
    let nb = corrupt_name(file_name, timestamp, b);
    if na == nb {
        if a == 0 {
            assert(nb.len() > base.len());
        } else if b == 0 {
            assert(na.len() > base.len());
        } else {
            let k = base.len() as int + 1;
            assert(na.skip(k) =~= decimal(a));
            assert(nb.skip(k) =~= decimal(b));
        }
    }
}

/// What woke the background task.
#[derive(Debug, Clone, Copy, PartialEq, Eq, Structural)]
pub enum WorkerSignal {
    /// The stop flag changed; it reads so now.
    CancelChanged { cancelled: bool },
    Wake,
    Tick,
}

/// What the background task does next.
#[derive(Debug, Clone, Copy, PartialEq, Eq, Structural)]
pub enum WorkerAction {
    Stop,
    Flush,
    Wait,
}

/// The background flushing of one store.
#[derive(Debug, Clone, Copy, PartialEq, Eq, Structural)]
pub struct FlushWorker {
    pub running: bool,
    pub has_task: bool,
}

impl FlushWorker {
    pub fn new() -> (r: Self)
        ensures
            r == (FlushWorker { running: false, has_task: false }),
    {
        FlushWorker { running: false, has_task: false }
    }

    /// Whether a wake-up reaches a task.
    pub fn schedule(&self) -> (r: bool)
        ensures
            r == self.running,
    {
        self.running
    }

    /// Whether to spawn the task: at most one runs, and none without an
    /// interval.
    pub fn start(&mut self, interval_ms: u64) -> (spawn: bool)
        ensures
            spawn == (interval_ms > 0 && !old(self).running && !old(self).has_task),
            final(self).running == (old(self).running || interval_ms > 0),
            final(self).has_task == (old(self).has_task || spawn),
    {
        if interval_ms == 0 {
            return false;
        }
        if self.running {
            return false;
        }
        self.running = true;
        if self.has_task {
            return false;
        }
        self.has_task = true;
        true
    }

    /// Stop; the return value asks for the task to be awaited.
    pub fn stop(&mut self) -> (join: bool)
        ensures
            join == old(self).has_task,
            *final(self) == (FlushWorker { running: false, has_task: false }),
    {
        let join = self.has_task;
        self.running = false;
        self.has_task = false;
        join
    }

    /// What the task does on a signal.
    pub fn on_signal(signal: WorkerSignal) -> (action: WorkerAction)
        ensures
            action == (match signal {
                WorkerSignal::CancelChanged { cancelled: true } => WorkerAction::Stop,
                WorkerSignal::CancelChanged { cancelled: false } => WorkerAction::Wait,
                WorkerSignal::Wake => WorkerAction::Flush,
                WorkerSignal::Tick => WorkerAction::Flush,
            }),
    {
        match signal {
            WorkerSignal::CancelChanged { cancelled } => {
                if cancelled {
                    WorkerAction::Stop
                } else {
                    WorkerAction::Wait
                }
            },
            WorkerSignal::Wake => WorkerAction::Flush,
            WorkerSignal::Tick => WorkerAction::Flush,
        }
    }
}

} // verus!
