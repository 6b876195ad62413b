//! The per-entry decisions of the pipeline: what a worker does with one
//! directory entry, and what result each unit of work must produce.
//!
//! The filesystem itself stays outside: the traversal hands entries over
//! as plain values, and reading a file's bytes is the caller's part. The
//! decisions — which entries are hashed, which are ignored, and what the
//! one result per job is — are verified here.

use vstd::prelude::*;

use crate::hash::hash_bytes;
use crate::hash::sha1_hex;

verus! {

/// One directory entry as the traversal hands it over.
pub enum Entry {
    /// A regular file at this path.
    File { path: String },
    /// An entry that is not a regular file (directory, symlink, special).
    Other { path: String },
    /// The traversal failed to resolve this entry.
    TraversalError { message: String },
}

/// What a worker is to do with one entry.
pub enum Action {
    /// Open the file at this path and hash its contents.
    HashFile { path: String },
    /// Skip the entry at this path, tagging it as ignored.
    ReportIgnored { path: String },
    /// Report the traversal failure.
    ReportTraversalError { message: String },
}

/// The action each kind of entry calls for: only regular files are
/// hashed; everything else is reported without touching the filesystem.
pub open spec fn action_for(e: Entry) -> Action {
    match e {
        Entry::File { path } => Action::HashFile { path },
        Entry::Other { path } => Action::ReportIgnored { path },
        Entry::TraversalError { message } => Action::ReportTraversalError { message },
    }
}

/// Decide what to do with one entry.
pub fn classify(e: Entry) -> (a: Action)
    ensures
        a == action_for(e),
{
    match e {
        Entry::File { path } => Action::HashFile { path },
        Entry::Other { path } => Action::ReportIgnored { path },
        Entry::TraversalError { message } => Action::ReportTraversalError { message },
    }
}

/// Finish one hashing job at the worker boundary: the digest on
/// success, the read failure's message otherwise — either way the job
/// resolves into exactly one outcome and never aborts the worker.
pub fn finish_hash(path: String, read: Result<String, String>) -> (o: Outcome)
    ensures
        read matches Ok(h) ==> o matches Outcome::Hashed { path: p, hash } && p == path && hash
            == h,
        read matches Err(m) ==> o matches Outcome::ReadError { path: p, message } && p == path
            && message == m,
{
    match read {
        Ok(hash) => Outcome::Hashed { path, hash },
        Err(message) => Outcome::ReadError { path, message },
    }
}

/// What reading a regular file gave: its full contents, or the message
/// of the failure (open failed, read failed, file vanished).
pub enum FileRead {
    Content(Vec<u8>),
    Failed(String),
}

/// One unit of work, with what the filesystem gave for it: an entry
/// and, for a regular file, the outcome of reading it.
pub enum Job {
    RegularFile { path: String, read: FileRead },
    OtherEntry { path: String },
    TraversalError { message: String },
}

/// The result a worker returns for one job. Every job yields exactly
/// one outcome; failures are ordinary results, never aborts.
pub enum Outcome {
    /// The file was read completely and hashed.
    Hashed { path: String, hash: String },
    /// The entry is not a regular file and was skipped.
    Ignored { path: String },
    /// Opening or reading the file failed.
    ReadError { path: String, message: String },
    /// The traversal itself failed for this entry.
    TraversalFailed { message: String },
}

/// The one outcome a job must map to: a hashed file carries the digest
/// of exactly its content bytes; every failure keeps its message.
pub open spec fn outcome_matches(j: Job, o: Outcome) -> bool {
    match j {
        Job::RegularFile { path, read } => match read {
            FileRead::Content(bytes) => o matches Outcome::Hashed { path: p, hash: h }
                && p == path
                && h@ == sha1_hex(bytes@),
            FileRead::Failed(msg) => o matches Outcome::ReadError { path: p, message: m }
                && p == path
                && m == msg,
        },
        Job::OtherEntry { path } => o matches Outcome::Ignored { path: p } && p == path,
        Job::TraversalError { message } => o matches Outcome::TraversalFailed { message: m }
            && m == message,
    }
}

/// The worker's transform: turn one job into its one outcome.
pub fn process_job(j: Job) -> (o: Outcome)
    ensures
        outcome_matches(j, o),
{
    match j {
        Job::RegularFile { path, read } => match read {
            FileRead::Content(bytes) => {
                let hash = hash_bytes(bytes.as_slice());
                Outcome::Hashed { path, hash }
            },
            FileRead::Failed(message) => Outcome::ReadError { path, message },
        },
        Job::OtherEntry { path } => Outcome::Ignored { path },
        Job::TraversalError { message } => Outcome::TraversalFailed { message },
    }
}

/// Run a whole batch of jobs in order: one outcome per job, each the
/// outcome its job maps to. This is the sequential reference for the
/// parallel pipeline, whose workers apply the same transform.
pub fn process_batch(jobs: Vec<Job>) -> (outcomes: Vec<Outcome>)
    ensures
        outcomes@.len() == jobs@.len(),
        forall|i: int|
            0 <= i < jobs@.len() ==> outcome_matches(jobs@[i], #[trigger] outcomes@[i]),
{
    let ghost all = jobs@;
    let mut jobs = jobs;
    let mut stack: Vec<Outcome> = Vec::new();
    while jobs.len() > 0
        invariant
            jobs@ == all.take(jobs@.len() as int),
            stack@.len() + jobs@.len() == all.len(),
            forall|k: int|
                0 <= k < stack@.len() ==> outcome_matches(
                    all[all.len() - 1 - k],
                    #[trigger] stack@[k],
                ),
        decreases jobs@.len(),
    {
        let j = jobs.pop().unwrap();
        proof {
            assert(j == all[jobs@.len() as int]);
            assert(all.take((jobs@.len() + 1) as int).take(jobs@.len() as int) =~= all.take(
                jobs@.len() as int,
            ));
        }
        let o = process_job(j);
        stack.push(o);
    }
    let mut outcomes: Vec<Outcome> = Vec::new();
    let ghost full = stack@;
    while stack.len() > 0
        invariant
            full.len() == all.len(),
            stack@ == full.take(stack@.len() as int),
            outcomes@.len() + stack@.len() == all.len(),
            forall|k: int|
                0 <= k < full.len() ==> outcome_matches(all[all.len() - 1 - k], #[trigger] full[k]),
            forall|k: int|
                0 <= k < outcomes@.len() ==> outcome_matches(all[k], #[trigger] outcomes@[k]),
        decreases stack@.len(),
    {
        let o = stack.pop().unwrap();
        proof {
            assert(o == full[stack@.len() as int]);
            assert(full.take((stack@.len() + 1) as int).take(stack@.len() as int) =~= full.take(
                stack@.len() as int,
            ));
        }
        outcomes.push(o);
    }
    outcomes
}

/// A bijective renumbering of `n` positions: the order in which the
/// gather stage delivered the results, relative to submission order.
pub open spec fn is_index_permutation(m: Seq<int>, n: int) -> bool {
    &&& m.len() == n
    &&& forall|i: int| 0 <= i < m.len() ==> 0 <= #[trigger] m[i] < n
    &&& forall|i: int, j: int| 0 <= i < j < m.len() ==> m[i] != m[j]
}

/// Relies on parallel_iterator::ParallelIterator: a producer thread
/// sends every job into a bounded channel exactly once; each job is
/// taken by exactly one worker, transformed by the (verified) job
/// transform, and every result is delivered to the consumer, in an
/// order the scheduler picks. So the results are exactly the jobs'
/// outcomes, delivered in some permutation of submission order.
#[verifier::external_body]
fn parallel_map_jobs(jobs: Vec<Job>) -> (r: Vec<Outcome>)
    ensures
        r@.len() == jobs@.len(),
        exists|m: Seq<int>|
            is_index_permutation(m, jobs@.len() as int) && forall|k: int|
                0 <= k < r@.len() ==> outcome_matches(jobs@[m[k]], #[trigger] r@[k]),
{
    let pipeline = parallel_iterator::ParallelIterator::new(
        move || jobs.into_iter(),
        || |j: Job| process_job(j),
    );
    pipeline.collect()
}

/// Run a whole batch through the parallel scatter-gather pipeline: the
/// jobs are fanned out to a fixed pool of workers, each applying the
/// same transform as `process_batch`, and the results are gathered in
/// whatever order the workers finish — one outcome per job, none lost,
/// none duplicated.
pub fn process_batch_parallel(jobs: Vec<Job>) -> (r: Vec<Outcome>)
    ensures
        r@.len() == jobs@.len(),
        r@.to_multiset().len() == jobs@.len(),
        exists|m: Seq<int>|
            is_index_permutation(m, jobs@.len() as int) && forall|k: int|
                0 <= k < r@.len() ==> outcome_matches(jobs@[m[k]], #[trigger] r@[k]),
{
    let r = parallel_map_jobs(jobs);
    proof {
        r@.to_multiset_ensures();
    }
    r
}

/// Law: no job is silently dropped and none is answered twice. A batch
/// of jobs yields exactly one outcome per job, and however the gather
/// stage reorders them (the delivered sequence is any sequence with the
/// same multiset of outcomes), the consumer sees as many results as
/// there were jobs.
pub proof fn lemma_no_job_lost(jobs: Seq<Job>, outcomes: Seq<Outcome>, delivered: Seq<Outcome>)
    requires
        outcomes.len() == jobs.len(),
        delivered.to_multiset() == outcomes.to_multiset(),
    ensures
        delivered.to_multiset().len() == jobs.len(),
        delivered.len() == jobs.len(),
{
    outcomes.to_multiset_ensures();
    delivered.to_multiset_ensures();
}

} // verus!
