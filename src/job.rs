//! What is done with each directory entry and with the outcome of each
//! transcode job.
use vstd::prelude::*;
use vstd::string::StringExecFns;
use crate::filter::{eligible, is_eligible};
use crate::ledger::{is_processed, FileLog, Log, SkipReason};

verus! {

/// The path the encoder writes for the file at `path`.
pub open spec fn output_path_of(path: Seq<char>) -> Seq<char> {
    path + "_x265.mp4"@
}

/// Returns the path the encoder writes for the file at `path`: its name with
/// the output marker appended.
pub fn output_path(path: &String) -> (r: String)
    ensures
        r@ == output_path_of(path@),
{
    path.clone().concat("_x265.mp4")
}

/// What the walk does with one directory entry.
#[derive(Clone, Copy, Debug, PartialEq, Eq, Structural)]
pub enum EntryStep {
    /// A directory: enumerate it.
    Descend,
    /// A file the ledger holds as processed and unchanged since.
    AlreadyProcessed,
    /// A file whose name is not a source the engine re-encodes.
    Ineligible,
    /// A file to re-encode.
    Transcode,
}

/// The step for an entry, given the durable map, the entry's path, whether
/// it is a directory and its freshness signal.
pub open spec fn entry_step(
    m: Map<Seq<char>, FileLog>,
    path: Seq<char>,
    is_dir: bool,
    signal: int,
) -> EntryStep {
    if is_dir {
        EntryStep::Descend
    } else if is_processed(m, path, signal) {
        EntryStep::AlreadyProcessed
    } else if !eligible(path) {
        EntryStep::Ineligible
    } else {
        EntryStep::Transcode
    }
}

impl Log {
    /// Decides what to do with the entry at `path`.
    pub fn decide_entry(&self, path: &String, is_dir: bool, modified: u64) -> (r: EntryStep)
        requires
            self.wf(),
        ensures
            r == entry_step(self.shrunk(), path@, is_dir, modified as int),
    {
        if is_dir {
            EntryStep::Descend
        } else if self.is_already_processed(path, modified) {
            EntryStep::AlreadyProcessed
        } else if !is_eligible(path.as_str()) {
            EntryStep::Ineligible
        } else {
            EntryStep::Transcode
        }
    }

    /// Records the outcome of a transcode job on `path`, whose size was
    /// `size_before`: the size of the output on success, marked at `now`, or
    /// the reason it failed, as a skip that leaves the durable map alone.
    pub fn record_outcome(
        &mut self,
        path: String,
        size_before: u64,
        outcome: Result<u64, SkipReason>,
        now: u64,
    )
        requires
            old(self).wf(),
        ensures
            final(self).wf(),
            final(self).save_file_spec() == old(self).save_file_spec(),
            match outcome {
                Ok(post) => {
                    let rec = FileLog { size_prev: size_before, size_post: post, modified: now };
                    &&& final(self).shrunk() == old(self).shrunk().insert(path@, rec)
                    &&& final(self).added() == old(self).added().push((path@, rec))
                    &&& final(self).skipped() == old(self).skipped()
                },
                Err(reason) => {
                    &&& final(self).shrunk() == old(self).shrunk()
                    &&& final(self).added() == old(self).added()
                    &&& final(self).skipped() == old(self).skipped().push((path@, reason))
                },
            },
    {
        match outcome {
            Ok(post) => self.mark_processed_at(path, size_before, post, now),
            Err(reason) => self.mark_skipped(path, reason),
        }
    }
}

} // verus!
