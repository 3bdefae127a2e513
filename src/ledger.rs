//! The ledger: the durable record of processed files, with the views of the
//! current run (records added, entries skipped) that feed the report.
use vstd::prelude::*;
use vstd::string::StringExecFns;

verus! {

/// What is recorded of one processed file: its size before and after the
/// encode, and the time (seconds since the epoch) at which it was marked.
#[derive(Clone, Copy, Debug, PartialEq, Eq, Structural)]
pub struct FileLog {
    pub size_prev: u64,
    pub size_post: u64,
    pub modified: u64,
}

/// Why an entry was skipped, with the text of the underlying system error.
#[derive(Debug)]
pub enum SkipReason {
    Metadata(String),
    ReadDir(String),
    Override(String),
    OpeningCompressedFile(String),
}

/// The human-readable text of a skip reason.
pub open spec fn reason_text(r: SkipReason) -> Seq<char> {
    match r {
        SkipReason::Metadata(e) => "Failed to read metadata: "@ + e@,
        SkipReason::ReadDir(e) => "Failed to read directory: "@ + e@,
        SkipReason::Override(e) => "Failed to override file: "@ + e@,
        SkipReason::OpeningCompressedFile(e) => "Failed to open compressed file to read size: "@
            + e@,
    }
}

impl SkipReason {
    /// Renders the reason as a message for the user.
    pub fn message(&self) -> (r: String)
        ensures
            r@ == reason_text(*self),
    {
        match self {
            SkipReason::Metadata(e) => String::from_str("Failed to read metadata: ").concat(
                e.as_str(),
            ),
            SkipReason::ReadDir(e) => String::from_str("Failed to read directory: ").concat(
                e.as_str(),
            ),
            SkipReason::Override(e) => String::from_str("Failed to override file: ").concat(
                e.as_str(),
            ),
            SkipReason::OpeningCompressedFile(e) => String::from_str(
                "Failed to open compressed file to read size: ",
            ).concat(e.as_str()),
        }
    }
}

/// The map that a list of records denotes; a later record of a path
/// replaces an earlier one.
pub open spec fn records_map(s: Seq<(String, FileLog)>) -> Map<Seq<char>, FileLog>
    decreases s.len(),
{
    if s.len() == 0 {
        Map::empty()
    } else {
        records_map(s.drop_last()).insert(s.last().0@, s.last().1)
    }
}

/// No two records of the list name the same path.
pub open spec fn keys_unique(s: Seq<(String, FileLog)>) -> bool {
    forall|i: int, j: int| 0 <= i < j < s.len() ==> s[i].0@ != s[j].0@
}

/// A list of records seen as paths and records.
pub open spec fn records_view(s: Seq<(String, FileLog)>) -> Seq<(Seq<char>, FileLog)> {
    s.map_values(|e: (String, FileLog)| (e.0@, e.1))
}

/// A skip log seen as paths and reasons.
pub open spec fn skips_view(s: Seq<(String, SkipReason)>) -> Seq<(Seq<char>, SkipReason)> {
    s.map_values(|e: (String, SkipReason)| (e.0@, e.1))
}

/// A file counts as processed when the ledger holds a record of it whose
/// mark is at least the freshness signal given.
pub open spec fn is_processed(m: Map<Seq<char>, FileLog>, path: Seq<char>, signal: int) -> bool {
    m.contains_key(path) && m[path].modified >= signal
}

proof fn lemma_records_map_absent(s: Seq<(String, FileLog)>, k: Seq<char>)
    requires
        forall|i: int| 0 <= i < s.len() ==> s[i].0@ != k,
    ensures
        !records_map(s).contains_key(k),
    decreases s.len(),
{
    if s.len() > 0 {
        lemma_records_map_absent(s.drop_last(), k);
    }
}

proof fn lemma_records_map_index(s: Seq<(String, FileLog)>, i: int)
    requires
        keys_unique(s),
        0 <= i < s.len(),
    ensures
        records_map(s).contains_key(s[i].0@),
        records_map(s)[s[i].0@] == s[i].1,
    decreases s.len(),
{
    if i < s.len() - 1 {
        lemma_records_map_index(s.drop_last(), i);
    }
}

proof fn lemma_records_map_update(s: Seq<(String, FileLog)>, i: int, e: (String, FileLog))
    requires
        keys_unique(s),
        0 <= i < s.len(),
        s[i].0@ == e.0@,
    ensures
        records_map(s.update(i, e)) == records_map(s).insert(e.0@, e.1),
        keys_unique(s.update(i, e)),
    decreases s.len(),
{
    let t = s.update(i, e);
    if i == s.len() - 1 {
        assert(t.drop_last() =~= s.drop_last());
        assert(records_map(t) =~= records_map(s).insert(e.0@, e.1));
    } else {
        assert(t.drop_last() =~= s.drop_last().update(i, e));
        lemma_records_map_update(s.drop_last(), i, e);
        assert(s.last().0@ != e.0@);
        assert(records_map(t) =~= records_map(s).insert(e.0@, e.1));
    }
}

/// Sum of the sizes before encoding over a list of records.
pub open spec fn sum_prev(s: Seq<(Seq<char>, FileLog)>) -> nat
    decreases s.len(),
{
    if s.len() == 0 {
        0
    } else {
        sum_prev(s.drop_last()) + s.last().1.size_prev as nat
    }
}

/// Sum of the sizes after encoding over a list of records.
pub open spec fn sum_post(s: Seq<(Seq<char>, FileLog)>) -> nat
    decreases s.len(),
{
    if s.len() == 0 {
        0
    } else {
        sum_post(s.drop_last()) + s.last().1.size_post as nat
    }
}

/// What a run reports: the records it added and the entries it skipped, in
/// order, and the exact totals of the added records' sizes.
pub struct Status {
    pub added: Vec<(String, FileLog)>,
    pub skipped: Vec<(String, SkipReason)>,
    pub total_prev: u128,
    pub total_post: u128,
}

/// Relies on `std::time::SystemTime::now` for the wall clock, read as whole
/// seconds since the epoch; `None` where the clock reads earlier than that.
/// Nothing is known of the value.
#[verifier::external_body]
fn unix_now() -> (r: Option<u64>) {
    std::time::SystemTime::now().duration_since(std::time::UNIX_EPOCH).ok().map(|d| d.as_secs())
}

/// The ledger. The durable part maps each processed path to its record; the
/// transient part lists what this run added and skipped, for the report.
pub struct Log {
    shrunk_files: Vec<(String, FileLog)>,
    added_files: Vec<(String, FileLog)>,
    skipped_files: Vec<(String, SkipReason)>,
    save_file: String,
}

/// Name of the file that holds the ledger, under the root directory.
pub open spec fn save_path(dir: Seq<char>) -> Seq<char> {
    dir + "/compression_log.json"@
}

impl Log {
    /// The durable map from path to record.
    pub closed spec fn shrunk(&self) -> Map<Seq<char>, FileLog> {
        records_map(self.shrunk_files@)
    }

    /// The records added in this run, in order.
    pub closed spec fn added(&self) -> Seq<(Seq<char>, FileLog)> {
        records_view(self.added_files@)
    }

    /// The entries skipped in this run, in order.
    pub closed spec fn skipped(&self) -> Seq<(Seq<char>, SkipReason)> {
        skips_view(self.skipped_files@)
    }

    /// Where the ledger is stored.
    pub closed spec fn save_file_spec(&self) -> Seq<char> {
        self.save_file@
    }

    /// The ledger's internal invariant.
    pub closed spec fn wf(&self) -> bool {
        keys_unique(self.shrunk_files@)
    }

    /// A fresh, empty ledger stored under the directory `dir`.
    pub fn new(dir: String) -> (r: Log)
        ensures
            r.wf(),
            r.shrunk() == Map::<Seq<char>, FileLog>::empty(),
            r.added().len() == 0,
            r.skipped().len() == 0,
            r.save_file_spec() == save_path(dir@),
    {
        let r = Log {
            shrunk_files: Vec::new(),
            added_files: Vec::new(),
            skipped_files: Vec::new(),
            save_file: dir.concat("/compression_log.json"),
        };
        assert(r.added_files@.len() == 0);
        r
    }

    /// The path of the file that holds the ledger.
    pub fn save_file(&self) -> (r: &String)
        ensures
            r@ == self.save_file_spec(),
    {
        &self.save_file
    }

    /// Index of the record of `path`, if there is one.
    fn find(&self, path: &String) -> (r: Option<usize>)
        requires
            self.wf(),
        ensures
            r matches Some(i) ==> i < self.shrunk_files@.len() && self.shrunk_files@[i as int].0@
                == path@,
            r is None ==> !self.shrunk().contains_key(path@),
    {
        let mut i: usize = 0;
        while i < self.shrunk_files.len()
            invariant
                i <= self.shrunk_files@.len(),
                forall|j: int| 0 <= j < i ==> self.shrunk_files@[j].0@ != path@,
            decreases self.shrunk_files@.len() - i,
        {
            if self.shrunk_files[i].0 == *path {
                return Some(i);
            }
            i = i + 1;
        }
        proof {
            lemma_records_map_absent(self.shrunk_files@, path@);
        }
        None
    }

    /// Whether `path` was processed at or after the freshness signal
    /// `modified_time`.
    pub fn is_already_processed(&self, path: &String, modified_time: u64) -> (r: bool)
        requires
            self.wf(),
        ensures
            r == is_processed(self.shrunk(), path@, modified_time as int),
    {
        match self.find(path) {
            Some(i) => {
                proof {
                    lemma_records_map_index(self.shrunk_files@, i as int);
                }
                self.shrunk_files[i].1.modified >= modified_time
            },
            None => false,
        }
    }

    /// Records `path` as processed at time `now`, replacing any earlier record
    /// of it, and lists the record among this run's additions.
    pub fn mark_processed_at(&mut self, path: String, prev: u64, post: u64, now: u64)
        requires
            old(self).wf(),
        ensures
            final(self).wf(),
            final(self).shrunk() == old(self).shrunk().insert(
                path@,
                FileLog { size_prev: prev, size_post: post, modified: now },
            ),
            final(self).added() == old(self).added().push(
                (path@, FileLog { size_prev: prev, size_post: post, modified: now }),
            ),
            final(self).skipped() == old(self).skipped(),
            final(self).save_file_spec() == old(self).save_file_spec(),
    {
        let file_log = FileLog { size_prev: prev, size_post: post, modified: now };
        let ghost old_added = self.added_files@;
        self.added_files.push((path.clone(), file_log));
        assert(records_view(self.added_files@) =~= records_view(old_added).push(
            (path@, file_log),
        ));
        self.put(path, file_log);
    }

    /// Writes the record of `path` into the durable map.
    fn put(&mut self, path: String, file_log: FileLog)
        requires
            old(self).wf(),
        ensures
            final(self).wf(),
            final(self).shrunk() == old(self).shrunk().insert(path@, file_log),
            final(self).added_files == old(self).added_files,
            final(self).skipped_files == old(self).skipped_files,
            final(self).save_file == old(self).save_file,
    {
        let ghost old_shrunk = self.shrunk_files@;
        match self.find(&path) {
            Some(i) => {
                proof {
                    lemma_records_map_update(old_shrunk, i as int, (path, file_log));
                }
                self.shrunk_files.set(i, (path, file_log));
            },
            None => {
                proof {
                    let ns = old_shrunk.push((path, file_log));
                    assert forall|a: int, b: int| 0 <= a < b < ns.len() implies ns[a].0@ != ns[b].0@ by {
                        if b == old_shrunk.len() && old_shrunk[a].0@ == path@ {
                            lemma_records_map_index(old_shrunk, a);
                        }
                    }
                    assert(ns.drop_last() =~= old_shrunk);
                }
                self.shrunk_files.push((path, file_log));
            },
        }
    }

    /// A ledger stored under `dir` that holds `records`; of two records of
    /// one path the later is kept.
    pub fn with_records(dir: String, records: Vec<(String, FileLog)>) -> (r: Log)
        ensures
            r.wf(),
            r.shrunk() == records_map(records@),
            r.added().len() == 0,
            r.skipped().len() == 0,
            r.save_file_spec() == save_path(dir@),
    {
        let mut log = Log::new(dir);
        let mut i: usize = 0;
        while i < records.len()
            invariant
                i <= records@.len(),
                log.wf(),
                log.shrunk() == records_map(records@.take(i as int)),
                log.added().len() == 0,
                log.skipped().len() == 0,
                log.save_file_spec() == save_path(dir@),
            decreases records@.len() - i,
        {
            assert(records@.take(i + 1).drop_last() =~= records@.take(i as int));
            let path = records[i].0.clone();
            log.put(path, records[i].1);
            i = i + 1;
        }
        assert(records@.take(i as int) =~= records@);
        log
    }

    /// The durable records, each path once.
    pub fn records(&self) -> (r: &Vec<(String, FileLog)>)
        requires
            self.wf(),
        ensures
            records_map(r@) == self.shrunk(),
            keys_unique(r@),
    {
        &self.shrunk_files
    }

    /// Hands out this run's additions and skips with the totals of the
    /// additions' sizes, and clears both lists; the durable map is kept.
    pub fn take_status(&mut self) -> (r: Status)
        requires
            old(self).wf(),
        ensures
            final(self).wf(),
            final(self).shrunk() == old(self).shrunk(),
            final(self).added().len() == 0,
            final(self).skipped().len() == 0,
            final(self).save_file_spec() == old(self).save_file_spec(),
            records_view(r.added@) == old(self).added(),
            skips_view(r.skipped@) == old(self).skipped(),
            r.total_prev == sum_prev(old(self).added()),
            r.total_post == sum_post(old(self).added()),
    {
        let mut added: Vec<(String, FileLog)> = Vec::new();
        let mut skipped: Vec<(String, SkipReason)> = Vec::new();
        std::mem::swap(&mut added, &mut self.added_files);
        std::mem::swap(&mut skipped, &mut self.skipped_files);
        let ghost view = records_view(added@);
        let mut total_prev: u128 = 0;
        let mut total_post: u128 = 0;
        let mut i: usize = 0;
        while i < added.len()
            invariant
                i <= added@.len(),
                view == records_view(added@),
                total_prev == sum_prev(view.take(i as int)),
                total_post == sum_post(view.take(i as int)),
                total_prev <= i * 0xFFFF_FFFF_FFFF_FFFFu128,
                total_post <= i * 0xFFFF_FFFF_FFFF_FFFFu128,
            decreases added@.len() - i,
        {
            assert(view.take(i + 1).drop_last() =~= view.take(i as int));
            proof {
                assert((i + 1) * 0xFFFF_FFFF_FFFF_FFFFu128 == i * 0xFFFF_FFFF_FFFF_FFFFu128
                    + 0xFFFF_FFFF_FFFF_FFFFu128) by (nonlinear_arith);
                assert((i + 1) * 0xFFFF_FFFF_FFFF_FFFFu128 < 0x1_0000_0000_0000_0000_0000_0000_0000_0000)
                    by (nonlinear_arith)
                    requires
                        i < 0x1_0000_0000_0000_0000,
                ;
            }
            total_prev = total_prev + added[i].1.size_prev as u128;
            total_post = total_post + added[i].1.size_post as u128;
            i = i + 1;
        }
        assert(view.take(i as int) =~= view);
        assert(self.added_files@.len() == 0);
        assert(records_view(self.added_files@) =~= Seq::empty());
        Status { added, skipped, total_prev, total_post }
    }

    /// Records `path` as processed now, by the wall clock. Returns false, and
    /// changes nothing, where the clock cannot be read.
    pub fn mark_processed(&mut self, path: String, prev: u64, post: u64) -> (ok: bool)
        requires
            old(self).wf(),
        ensures
            final(self).wf(),
            final(self).skipped() == old(self).skipped(),
            final(self).save_file_spec() == old(self).save_file_spec(),
            ok ==> {
                let rec = final(self).shrunk()[path@];
                &&& rec.size_prev == prev
                &&& rec.size_post == post
                &&& final(self).shrunk() == old(self).shrunk().insert(path@, rec)
                &&& final(self).added() == old(self).added().push((path@, rec))
            },
            !ok ==> final(self).shrunk() == old(self).shrunk() && final(self).added() == old(
                self,
            ).added(),
    {
        match unix_now() {
            Some(now) => {
                self.mark_processed_at(path, prev, post, now);
                true
            },
            None => false,
        }
    }

    /// Appends `path` with its reason to this run's skip log.
    pub fn mark_skipped(&mut self, path: String, reason: SkipReason)
        requires
            old(self).wf(),
        ensures
            final(self).wf(),
            final(self).shrunk() == old(self).shrunk(),
            final(self).added() == old(self).added(),
            final(self).skipped() == old(self).skipped().push((path@, reason)),
            final(self).save_file_spec() == old(self).save_file_spec(),
    {
        let ghost old_skipped = self.skipped_files@;
        self.skipped_files.push((path, reason));
        assert(skips_view(self.skipped_files@) =~= skips_view(old_skipped).push((path@, reason)));
    }
}

} // verus!
