//! The serving core's laws, proved over the transition relations its
//! operations are specified by.

use vstd::prelude::*;
use crate::api::{InferenceRunReply, InferenceRunRequest, JobStatus};
use crate::errors::{GenerationError, QueueFullError};
use crate::result_cache::{get_rel, insert_rel, ResultCache};
use crate::serving::{
    claim_rel, drain_rel, enqueue_rel, finish_rel, queued_ids, status_rel, terminal_entry,
    AdmitDecision, Cylon,
};

verus! {

/// Single inference slot: once a claim has granted the slot, a second
/// claim before any release is refused, and it changes nothing.
pub proof fn lemma_single_slot(
    pre: Cylon,
    mid: Cylon,
    post: Cylon,
    d1: AdmitDecision,
    d2: AdmitDecision,
)
    requires
        !pre.queue_disabled,
        claim_rel(pre, mid, d1),
        d1 == AdmitDecision::RunThenDrain,
        claim_rel(mid, post, d2),
    ensures
        d2 != AdmitDecision::RunThenDrain,
        post == mid,
{
}

/// Queue bound: a well-formed queue never exceeds its capacity, and an
/// enqueue against a queue at its bound is rejected without any effect.
pub proof fn lemma_queue_bound(
    pre: Cylon,
    post: Cylon,
    job_id: String,
    request: InferenceRunRequest,
    now: i64,
    r: Result<(), QueueFullError>,
)
    requires
        pre.wf(),
        enqueue_rel(pre, post, job_id, request, now, r),
    ensures
        post.queue@.len() <= post.queue.cap(),
        pre.queue@.len() >= pre.queue.cap() ==> r is Err && post == pre,
{
}

/// Result visibility, first step: right after a successful enqueue the
/// job's status reads QUEUED.
pub proof fn lemma_queued_visible(
    pre: Cylon,
    mid: Cylon,
    post: Cylon,
    job_id: String,
    request: InferenceRunRequest,
    now: i64,
    now2: i64,
    st: Option<JobStatus>,
)
    requires
        pre.queue@.len() < pre.queue.cap(),
        enqueue_rel(pre, mid, job_id, request, now, Ok(())),
        status_rel(mid, post, job_id, now2, st),
        now2 - now < mid.results.ttl_spec(),
    ensures
        st == Some(JobStatus::Queued),
        post == mid,
{
}

/// Result visibility, second step: once the drainer records the job's
/// outcome, its status reads COMPLETED or ERROR — never QUEUED again.
pub proof fn lemma_terminal_visible(
    pre: Cylon,
    mid: Cylon,
    post: Cylon,
    job_id: String,
    outcome: Result<String, GenerationError>,
    now: i64,
    now2: i64,
    st: Option<JobStatus>,
)
    requires
        finish_rel(pre, mid, job_id, outcome, now),
        status_rel(mid, post, job_id, now2, st),
        now2 - now < mid.results.ttl_spec(),
    ensures
        outcome is Ok ==> st == Some(JobStatus::Completed),
        outcome is Err ==> st == Some(JobStatus::Error),
        st != Some(JobStatus::Queued),
{
}

/// Result visibility, stability: recording another job's outcome leaves a
/// job's cached entry untouched.
pub proof fn lemma_entry_stable(
    pre: Cylon,
    post: Cylon,
    other_id: String,
    outcome: Result<String, GenerationError>,
    now: i64,
    job_id: Seq<char>,
)
    requires
        finish_rel(pre, post, other_id, outcome, now),
        other_id@ != job_id,
    ensures
        post.results.spec_lookup(job_id) == pre.results.spec_lookup(job_id),
{
}

/// Result visibility, stability: queueing another job leaves a job's
/// cached entry untouched as well.
pub proof fn lemma_entry_stable_under_enqueue(
    pre: Cylon,
    post: Cylon,
    other_id: String,
    request: InferenceRunRequest,
    now: i64,
    r: Result<(), QueueFullError>,
    job_id: Seq<char>,
)
    requires
        enqueue_rel(pre, post, other_id, request, now, r),
        other_id@ != job_id,
    ensures
        post.results.spec_lookup(job_id) == pre.results.spec_lookup(job_id),
{
}

/// Result visibility, completion: a drain resolves every queued job to a
/// terminal entry, and a job already terminal stays terminal — a resolved
/// status never reverts to QUEUED.
pub proof fn lemma_drain_resolves(pre: Cylon, post: Cylon, job_id: Seq<char>)
    requires
        drain_rel(pre, post),
        queued_ids(pre.queue@).contains(job_id) || terminal_entry(pre.results, job_id),
    ensures
        terminal_entry(post.results, job_id),
{
    if queued_ids(pre.queue@).contains(job_id) {
        let i = choose|i: int|
            0 <= i < pre.queue@.len() && #[trigger] pre.queue@[i].job_id@ == job_id;
        assert(terminal_entry(post.results, pre.queue@[i].job_id@));
    } else {
        assert(post.results.spec_lookup(job_id) == pre.results.spec_lookup(job_id));
    }
}

/// Time to live: a value inserted at `t` is returned by a read at `t2`
/// exactly when `t2 - t` is under the time-to-live, and withheld once the
/// age reaches it.
pub proof fn lemma_ttl(
    c0: ResultCache,
    c1: ResultCache,
    c2: ResultCache,
    key: String,
    reply: InferenceRunReply,
    t: i64,
    t2: i64,
    r: Option<InferenceRunReply>,
)
    requires
        insert_rel(c0, c1, key, reply, t),
        get_rel(c1, c2, key, t2, r),
    ensures
        t2 - t < c0.ttl_spec() ==> r == Some(reply),
        t2 - t >= c0.ttl_spec() ==> r is None,
{
}

/// Status lookup is read-only: two status reads of a resolved, unexpired
/// job return the same answer and leave the core exactly as it was.
pub proof fn lemma_status_read_only(
    pre: Cylon,
    mid: Cylon,
    post: Cylon,
    uuid: String,
    now: i64,
    r1: Option<JobStatus>,
    r2: Option<JobStatus>,
)
    requires
        pre.results.spec_lookup(uuid@) matches Some(sl) && pre.results.fresh_at(sl, now),
        status_rel(pre, mid, uuid, now, r1),
        status_rel(mid, post, uuid, now, r2),
    ensures
        r1 == r2,
        mid == pre,
        post == pre,
{
}

} // verus!
