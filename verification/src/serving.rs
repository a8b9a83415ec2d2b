//! The serving core: admission, the single inference slot, and the drainer.
//!
//! A request either runs at once or joins the bounded queue, decided by the
//! `processing` flag that guards the single inference slot. Whoever flips
//! the flag to `true` owes the system a drain of the queue that ends by
//! flipping it back — `run_queued_jobs` discharges that obligation and is
//! proved to.

use vstd::prelude::*;
use crate::api::{
    completed_reply, error_reply, ok_reply, queued_reply, InferenceRunReply, InferenceRunRequest,
    JobStatus, Message,
};
use crate::errors::{GenerationError, QueueFullError};
use crate::prompt_queue::{PromptQueue, QueuedRequest};
use crate::render::build_prompt_vec;
use crate::result_cache::ResultCache;
use crate::textgen::TextGenerator;
use crate::time::now_seconds;

verus! {

/// What the slot decision says about a request.
#[derive(Debug, Clone, Copy, PartialEq, Eq, Structural)]
pub enum AdmitDecision {
    /// The queue is disabled: run at once, serialized by the caller's guard.
    RunNow,
    /// The slot was free and is now claimed: run at once, then drain the
    /// queue until it is empty.
    RunThenDrain,
    /// The slot is busy: the job belongs in the queue.
    Busy,
}

/// Why a run request failed.
#[derive(Debug)]
pub enum ServeError {
    QueueFull(QueueFullError),
    Generation(GenerationError),
}

/// The serving core's state: everything but the model itself.
pub struct Cylon {
    /// The system message, pre-rendered to its JSON object.
    pub system_prompt: String,
    pub sample_len: usize,
    pub queue: PromptQueue,
    /// The single-inference-slot flag.
    pub processing: bool,
    pub results: ResultCache,
    pub queue_disabled: bool,
}

/// The configuration-derived parts that no operation may change.
pub open spec fn same_config(a: Cylon, b: Cylon) -> bool {
    &&& a.system_prompt == b.system_prompt
    &&& a.sample_len == b.sample_len
    &&& a.queue_disabled == b.queue_disabled
    &&& a.queue.cap() == b.queue.cap()
    &&& a.results.ttl_spec() == b.results.ttl_spec()
}

/// What one `claim_slot` does: with the queue disabled nothing changes and
/// the caller runs under its own guard; a free slot is claimed by setting
/// `processing`; a busy slot leaves everything as it was.
pub open spec fn claim_rel(pre: Cylon, post: Cylon, d: AdmitDecision) -> bool {
    &&& post.wf()
    &&& same_config(pre, post)
    &&& pre.queue_disabled ==> d == AdmitDecision::RunNow && post == pre
    &&& !pre.queue_disabled && !pre.processing ==> d == AdmitDecision::RunThenDrain
        && post.processing == true && post.queue == pre.queue && post.results == pre.results
    &&& !pre.queue_disabled && pre.processing ==> d == AdmitDecision::Busy && post == pre
}

/// What one `enqueue_job` does: under the bound the job joins the queue and
/// becomes visible as QUEUED; at the bound it is rejected and nothing at
/// all changes.
pub open spec fn enqueue_rel(
    pre: Cylon,
    post: Cylon,
    job_id: String,
    request: InferenceRunRequest,
    now: i64,
    r: Result<(), QueueFullError>,
) -> bool {
    &&& post.wf()
    &&& same_config(pre, post)
    &&& post.processing == pre.processing
    &&& pre.queue@.len() < pre.queue.cap() ==> {
        &&& r is Ok
        &&& post.queue@ == pre.queue@.push(QueuedRequest { job_id: job_id, request: request })
        &&& post.results.spec_lookup(job_id@) matches Some(sl)
        &&& sl.inserted_at == now
        &&& sl.reply.status == JobStatus::Queued
        &&& sl.reply.response is None
        &&& sl.reply.uuid@ == job_id@
        &&& forall|k: Seq<char>|
            k != job_id@ ==> #[trigger] post.results.spec_lookup(k) == pre.results.spec_lookup(k)
    }
    &&& pre.queue@.len() >= pre.queue.cap() ==> r is Err && post == pre
}

/// What one `finish_queued` does: the job id now maps to COMPLETED with the
/// assistant's message, or to ERROR with no response; nothing else changes.
pub open spec fn finish_rel(
    pre: Cylon,
    post: Cylon,
    job_id: String,
    outcome: Result<String, GenerationError>,
    now: i64,
) -> bool {
    &&& post.wf()
    &&& same_config(pre, post)
    &&& post.queue == pre.queue
    &&& post.processing == pre.processing
    &&& outcome matches Ok(content) ==> ({
        &&& post.results.spec_lookup(job_id@) matches Some(sl)
        &&& sl.inserted_at == now
        &&& sl.reply.status == JobStatus::Completed
        &&& sl.reply.uuid@ == job_id@
        &&& sl.reply.response matches Some(m)
        &&& m.role@ == "assistant"@
        &&& m.content == content
    })
    &&& outcome matches Err(_) ==> ({
        &&& post.results.spec_lookup(job_id@) matches Some(sl)
        &&& sl.inserted_at == now
        &&& sl.reply.status == JobStatus::Error
        &&& sl.reply.response is None
        &&& sl.reply.uuid@ == job_id@
    })
    &&& forall|k: Seq<char>|
        k != job_id@ ==> #[trigger] post.results.spec_lookup(k) == pre.results.spec_lookup(k)
}

/// What one `inference_status_at` does: a fresh entry's status is returned
/// and nothing at all changes; a stale entry is evicted and withheld; an
/// unknown id returns nothing; no other key changes either way.
pub open spec fn status_rel(
    pre: Cylon,
    post: Cylon,
    uuid: String,
    now: i64,
    r: Option<JobStatus>,
) -> bool {
    &&& post.wf()
    &&& same_config(pre, post)
    &&& match pre.results.spec_lookup(uuid@) {
        Some(sl) => {
            if pre.results.fresh_at(sl, now) {
                r == Some(sl.reply.status) && post == pre
            } else {
                r is None && post.results.spec_lookup(uuid@) is None
            }
        },
        None => r is None && post == pre,
    }
    &&& forall|k: Seq<char>|
        k != uuid@ ==> #[trigger] post.results.spec_lookup(k) == pre.results.spec_lookup(k)
}

/// What one `inference_result_at` does: as `status_rel`, with the stored
/// response in place of the status.
pub open spec fn result_rel(
    pre: Cylon,
    post: Cylon,
    uuid: String,
    now: i64,
    r: Option<Option<Message>>,
) -> bool {
    &&& post.wf()
    &&& same_config(pre, post)
    &&& match pre.results.spec_lookup(uuid@) {
        Some(sl) => {
            if pre.results.fresh_at(sl, now) {
                r == Some(sl.reply.response) && post == pre
            } else {
                r is None && post.results.spec_lookup(uuid@) is None
            }
        },
        None => r is None && post == pre,
    }
    &&& forall|k: Seq<char>|
        k != uuid@ ==> #[trigger] post.results.spec_lookup(k) == pre.results.spec_lookup(k)
}

/// The ids of the jobs in a queue snapshot.
pub open spec fn queued_ids(jobs: Seq<QueuedRequest>) -> Set<Seq<char>> {
    Set::new(|k: Seq<char>| exists|i: int| 0 <= i < jobs.len() && #[trigger] jobs[i].job_id@ == k)
}

/// What one full drain does: the queue ends empty, the slot is released,
/// every queued job's id now carries a terminal entry, and no other cache
/// key changed.
pub open spec fn drain_rel(pre: Cylon, post: Cylon) -> bool {
    &&& post.wf()
    &&& same_config(pre, post)
    &&& post.processing == false
    &&& post.queue@.len() == 0
    &&& forall|i: int|
        0 <= i < pre.queue@.len() ==> #[trigger] terminal_entry(
            post.results,
            pre.queue@[i].job_id@,
        )
    &&& forall|k: Seq<char>|
        !queued_ids(pre.queue@).contains(k) ==> #[trigger] post.results.spec_lookup(k)
            == pre.results.spec_lookup(k)
}

/// A drained job's terminal cache entry: COMPLETED carrying an assistant
/// message, or ERROR carrying none, stored under the job's own id.
pub open spec fn terminal_entry(results: ResultCache, job_id: Seq<char>) -> bool {
    match results.spec_lookup(job_id) {
        Some(sl) => {
            &&& sl.reply.uuid@ == job_id
            &&& (sl.reply.status == JobStatus::Completed || sl.reply.status == JobStatus::Error)
            &&& (sl.reply.status == JobStatus::Completed ==> ({
                &&& sl.reply.response matches Some(m)
                &&& m.role@ == "assistant"@
            }))
            &&& (sl.reply.status == JobStatus::Error ==> sl.reply.response is None)
        },
        None => false,
    }
}

impl Cylon {
    pub open spec fn wf(&self) -> bool {
        self.queue.wf() && self.results.wf()
    }

    pub fn new(
        system_prompt: String,
        sample_len: usize,
        queue_buffer_size: usize,
        result_cache_ttl: i64,
        queue_disabled: bool,
    ) -> (c: Cylon)
        ensures
            c.wf(),
            c.system_prompt == system_prompt,
            c.sample_len == sample_len,
            c.queue@.len() == 0,
            c.queue.cap() == queue_buffer_size as nat,
            c.processing == false,
            c.results.slots_view().len() == 0,
            c.results.ttl_spec() == result_cache_ttl as int,
            c.queue_disabled == queue_disabled,
    {
        Cylon {
            system_prompt,
            sample_len,
            queue: PromptQueue::new(queue_buffer_size),
            processing: false,
            results: ResultCache::new(result_cache_ttl),
            queue_disabled,
        }
    }

    /// Decide how a request is served: with the queue disabled the caller
    /// runs at once under its own guard; with a free inference slot the
    /// flag is claimed and the caller must run and then drain; with a busy
    /// slot the job belongs in the queue.
    pub fn claim_slot(&mut self) -> (d: AdmitDecision)
        requires
            old(self).wf(),
        ensures
            final(self).wf(),
            same_config(*old(self), *final(self)),
            old(self).queue_disabled ==> d == AdmitDecision::RunNow && *final(self) == *old(self),
            !old(self).queue_disabled && !old(self).processing ==> d == AdmitDecision::RunThenDrain
                && final(self).processing == true && final(self).queue == old(self).queue && final(self).results == old(self).results,
            !old(self).queue_disabled && old(self).processing ==> d == AdmitDecision::Busy
                && *final(self) == *old(self),
            claim_rel(*old(self), *final(self), d),
    {
        if self.queue_disabled {
            AdmitDecision::RunNow
        } else if !self.processing {
            self.processing = true;
            AdmitDecision::RunThenDrain
        } else {
            AdmitDecision::Busy
        }
    }

    /// Put a job on the queue and make it visible as QUEUED, as of time
    /// `now`. Job ids are freshly generated and unique, so the id must not
    /// already be cached. At the bound, the job is rejected and nothing is
    /// stored: its id stays unknown to status lookups.
    pub fn enqueue_job(&mut self, job_id: String, request: InferenceRunRequest, now: i64) -> (r:
        Result<(), QueueFullError>)
        requires
            old(self).wf(),
            old(self).results.spec_lookup(job_id@) is None,
        ensures
            final(self).wf(),
            same_config(*old(self), *final(self)),
            final(self).processing == old(self).processing,
            old(self).queue@.len() < old(self).queue.cap() ==> {
                &&& r is Ok
                &&& final(self).queue@ == old(self).queue@.push(
                    QueuedRequest { job_id: job_id, request: request },
                )
                &&& final(self).results.spec_lookup(job_id@) matches Some(sl)
                &&& sl.inserted_at == now
                &&& sl.reply.status == JobStatus::Queued
                &&& sl.reply.response is None
                &&& sl.reply.uuid@ == job_id@
                &&& forall|k: Seq<char>|
                    k != job_id@ ==> #[trigger] final(self).results.spec_lookup(k) == old(self).results.spec_lookup(k)
            },
            old(self).queue@.len() >= old(self).queue.cap() ==> r is Err && *final(self) == *old(self),
            enqueue_rel(*old(self), *final(self), job_id, request, now, r),
    {
        match self.queue.enqueue(job_id.clone(), request) {
            Ok(()) => {
                self.results.insert_at(job_id.clone(), queued_reply(job_id.clone()), now);
                Ok(())
            },
            Err(QueueFullError) => Err(QueueFullError),
        }
    }

    /// Take the next queued job, or — atomically with finding the queue
    /// empty — release the inference slot.
    pub fn drain_next(&mut self) -> (r: Option<QueuedRequest>)
        requires
            old(self).wf(),
        ensures
            final(self).wf(),
            same_config(*old(self), *final(self)),
            final(self).results == old(self).results,
            old(self).queue@.len() == 0 ==> r is None && final(self).processing == false && final(self).queue@ == old(self).queue@,
            old(self).queue@.len() > 0 ==> r == Some(old(self).queue@[0]) && final(self).queue@
                == old(self).queue@.drop_first() && final(self).processing == old(self).processing,
    {
        match self.queue.dequeue() {
            Some(job) => Some(job),
            None => {
                self.processing = false;
                None
            },
        }
    }

    /// Record a drained job's outcome, as of time `now`: the assistant's
    /// message under COMPLETED, or an ERROR entry with no response.
    pub fn finish_queued(
        &mut self,
        job_id: String,
        outcome: Result<String, GenerationError>,
        now: i64,
    )
        requires
            old(self).wf(),
        ensures
            final(self).wf(),
            same_config(*old(self), *final(self)),
            final(self).queue == old(self).queue,
            final(self).processing == old(self).processing,
            outcome matches Ok(content) ==> ({
                &&& final(self).results.spec_lookup(job_id@) matches Some(sl)
                &&& sl.inserted_at == now
                &&& sl.reply.status == JobStatus::Completed
                &&& sl.reply.uuid@ == job_id@
                &&& sl.reply.response matches Some(m)
                &&& m.role@ == "assistant"@
                &&& m.content == content
            }),
            outcome matches Err(_) ==> ({
                &&& final(self).results.spec_lookup(job_id@) matches Some(sl)
                &&& sl.inserted_at == now
                &&& sl.reply.status == JobStatus::Error
                &&& sl.reply.response is None
                &&& sl.reply.uuid@ == job_id@
            }),
            forall|k: Seq<char>|
                k != job_id@ ==> #[trigger] final(self).results.spec_lookup(k) == old(self).results.spec_lookup(k),
            finish_rel(*old(self), *final(self), job_id, outcome, now),
    {
        match outcome {
            Ok(content) => {
                let reply = completed_reply(job_id.clone(), content);
                self.results.insert_at(job_id, reply, now);
            },
            Err(_) => {
                let reply = error_reply(job_id.clone());
                self.results.insert_at(job_id, reply, now);
            },
        }
    }

    /// Drain the queue through the model until it is empty, then release
    /// the inference slot. Every job of the old queue ends with a terminal
    /// cache entry under its id — COMPLETED carrying the assistant's
    /// message, or ERROR carrying none — and no other cache key changes.
    /// Every iteration removes one job, so the drain terminates, and it
    /// alone flips `processing` back to `false`.
    #[verifier::loop_isolation(false)]
    pub fn run_queued_jobs<T: TextGenerator>(&mut self, model: &T)
        requires
            old(self).wf(),
        ensures
            final(self).wf(),
            same_config(*old(self), *final(self)),
            final(self).processing == false,
            final(self).queue@.len() == 0,
            forall|i: int|
                0 <= i < old(self).queue@.len() ==> #[trigger] terminal_entry(
                    final(self).results,
                    old(self).queue@[i].job_id@,
                ),
            forall|k: Seq<char>|
                !queued_ids(old(self).queue@).contains(k)
                    ==> #[trigger] final(self).results.spec_lookup(k)
                    == old(self).results.spec_lookup(k),
            drain_rel(*old(self), *final(self)),
    {
        let ghost mut processed: Seq<QueuedRequest> = Seq::empty();
        proof {
            assert(old(self).queue@ =~= processed + self.queue@);
        }
        let mut done = false;
        while !done
            invariant
                self.wf(),
                same_config(*old(self), *self),
                old(self).queue@ == processed + self.queue@,
                forall|i: int|
                    0 <= i < processed.len() ==> #[trigger] terminal_entry(
                        self.results,
                        processed[i].job_id@,
                    ),
                forall|k: Seq<char>|
                    !queued_ids(processed).contains(k) ==> #[trigger] self.results.spec_lookup(k)
                        == old(self).results.spec_lookup(k),
                done ==> self.processing == false && self.queue@.len() == 0,
            decreases self.queue@.len() + (if done {
                0int
            } else {
                1int
            }),
        {
            let ghost pre_queue = self.queue@;
            let ghost prev_processed = processed;
            match self.drain_next() {
                Some(job) => {
                    let ghost jobg = job;
                    let outcome = process_inference_request(
                        model,
                        &self.system_prompt,
                        self.sample_len,
                        &job.request,
                    );
                    let now = now_seconds();
                    let ghost pre_finish = *self;
                    proof {
                        processed = prev_processed.push(jobg);
                    }
                    self.finish_queued(job.job_id, outcome, now);
                    proof {
                        assert(processed + self.queue@ =~= prev_processed + pre_queue);
                        assert forall|i: int|
                            0 <= i < processed.len() implies #[trigger] terminal_entry(
                            self.results,
                            processed[i].job_id@,
                        ) by {
                            if processed[i].job_id@ == jobg.job_id@ {
                                assert(terminal_entry(self.results, jobg.job_id@));
                            } else {
                                assert(processed[i] == prev_processed[i]);
                                assert(terminal_entry(pre_finish.results, processed[i].job_id@));
                                assert(self.results.spec_lookup(processed[i].job_id@)
                                    == pre_finish.results.spec_lookup(processed[i].job_id@));
                            }
                        }
                        assert forall|k: Seq<char>|
                            !queued_ids(processed).contains(k)
                                implies #[trigger] self.results.spec_lookup(k) == old(
                            self,
                        ).results.spec_lookup(k) by {
                            assert(k != jobg.job_id@) by {
                                if k == jobg.job_id@ {
                                    assert(processed[processed.len() - 1].job_id@ == k);
                                    assert(queued_ids(processed).contains(k));
                                }
                            }
                            assert(!queued_ids(prev_processed).contains(k)) by {
                                if queued_ids(prev_processed).contains(k) {
                                    let i = choose|i: int|
                                        0 <= i < prev_processed.len() && #[trigger] prev_processed[
                                        i].job_id@ == k;
                                    assert(processed[i] == prev_processed[i]);
                                    assert(processed[i].job_id@ == k);
                                    assert(queued_ids(processed).contains(k));
                                }
                            }
                            assert(self.results.spec_lookup(k) == pre_finish.results.spec_lookup(
                                k,
                            ));
                            assert(pre_finish.results.spec_lookup(k) == old(
                                self,
                            ).results.spec_lookup(k));
                        }
                    }
                },
                None => {
                    done = true;
                },
            }
        }
        proof {
            assert(old(self).queue@ =~= processed);
            assert forall|i: int|
                0 <= i < old(self).queue@.len() implies #[trigger] terminal_entry(
                self.results,
                old(self).queue@[i].job_id@,
            ) by {
                assert(old(self).queue@[i] == processed[i]);
                assert(terminal_entry(self.results, processed[i].job_id@));
            }
            assert forall|k: Seq<char>|
                !queued_ids(old(self).queue@).contains(k)
                    implies #[trigger] self.results.spec_lookup(k) == old(
                self,
            ).results.spec_lookup(k) by {
                assert(!queued_ids(processed).contains(k)) by {
                    if queued_ids(processed).contains(k) {
                        let i = choose|i: int|
                            0 <= i < processed.len() && #[trigger] processed[i].job_id@ == k;
                        assert(old(self).queue@[i] == processed[i]);
                        assert(old(self).queue@[i].job_id@ == k);
                        assert(queued_ids(old(self).queue@).contains(k));
                    }
                }
            }
        }
    }

    /// Serve one run request end to end: decide its fate, run it or queue it, and
    /// when this call claimed the inference slot, drain the queue before
    /// returning.
    pub fn inference_run<T: TextGenerator>(
        &mut self,
        model: &T,
        job_id: String,
        request: InferenceRunRequest,
    ) -> (r: Result<InferenceRunReply, ServeError>)
        requires
            old(self).wf(),
            old(self).results.spec_lookup(job_id@) is None,
        ensures
            final(self).wf(),
            same_config(*old(self), *final(self)),
            old(self).queue_disabled ==> ({
                &&& *final(self) == *old(self)
                &&& (r matches Ok(rep) ==> ({
                    &&& rep.status == JobStatus::Okay
                    &&& rep.uuid == job_id
                    &&& rep.response matches Some(m)
                    &&& m.role@ == "assistant"@
                }))
            }),
            !old(self).queue_disabled && !old(self).processing ==> ({
                &&& final(self).processing == false
                &&& final(self).queue@.len() == 0
                &&& (r matches Ok(rep) ==> ({
                    &&& rep.status == JobStatus::Okay
                    &&& rep.uuid == job_id
                    &&& rep.response matches Some(m)
                    &&& m.role@ == "assistant"@
                }))
                &&& forall|i: int|
                    0 <= i < old(self).queue@.len() ==> #[trigger] terminal_entry(
                        final(self).results,
                        old(self).queue@[i].job_id@,
                    )
                &&& forall|k: Seq<char>|
                    !queued_ids(old(self).queue@).contains(k)
                        ==> #[trigger] final(self).results.spec_lookup(k)
                        == old(self).results.spec_lookup(k)
            }),
            !old(self).queue_disabled && old(self).processing && old(self).queue@.len() < old(self).queue.cap() ==> {
                &&& r matches Ok(rep)
                &&& rep.status == JobStatus::Queued
                &&& rep.response is None
                &&& rep.uuid == job_id
                &&& final(self).queue@ == old(self).queue@.push(
                    QueuedRequest { job_id: job_id, request: request },
                )
                &&& final(self).results.spec_lookup(job_id@) matches Some(sl)
                &&& sl.reply.status == JobStatus::Queued
            },
            !old(self).queue_disabled && old(self).processing && old(self).queue@.len() >= old(self).queue.cap() ==> ({
                &&& r matches Err(e)
                &&& e is QueueFull
                &&& *final(self) == *old(self)
            }),
            r matches Ok(rep) ==> (rep.status == JobStatus::Okay ==> {
                &&& rep.uuid == job_id
                &&& rep.response matches Some(m)
                &&& m.role@ == "assistant"@
            }),
            old(self).queue_disabled || !old(self).processing ==> (r matches Err(e) ==> e
                is Generation),
    {
        let decision = self.claim_slot();
        let ghost mid = *self;
        match decision {
            AdmitDecision::RunNow => {
                match process_inference_request(
                    model,
                    &self.system_prompt,
                    self.sample_len,
                    &request,
                ) {
                    Ok(content) => Ok(ok_reply(job_id, content)),
                    Err(e) => Err(ServeError::Generation(e)),
                }
            },
            AdmitDecision::RunThenDrain => {
                let outcome = process_inference_request(
                    model,
                    &self.system_prompt,
                    self.sample_len,
                    &request,
                );
                self.run_queued_jobs(model);
                proof {
                    assert(mid.queue@ == old(self).queue@);
                    assert(mid.results == old(self).results);
                }
                match outcome {
                    Ok(content) => Ok(ok_reply(job_id, content)),
                    Err(e) => Err(ServeError::Generation(e)),
                }
            },
            AdmitDecision::Busy => {
                let now = now_seconds();
                match self.enqueue_job(job_id.clone(), request, now) {
                    Ok(()) => Ok(queued_reply(job_id)),
                    Err(QueueFullError) => Err(ServeError::QueueFull(QueueFullError)),
                }
            },
        }
    }

    /// Look a job's status up at time `now`; `None` stands for NotFound.
    pub fn inference_status_at(&mut self, uuid: &String, now: i64) -> (r: Option<JobStatus>)
        requires
            old(self).wf(),
        ensures
            final(self).wf(),
            same_config(*old(self), *final(self)),
            match old(self).results.spec_lookup(uuid@) {
                Some(sl) => {
                    if old(self).results.fresh_at(sl, now) {
                        r == Some(sl.reply.status) && *final(self) == *old(self)
                    } else {
                        r is None && final(self).results.spec_lookup(uuid@) is None
                    }
                },
                None => r is None && *final(self) == *old(self),
            },
            forall|k: Seq<char>|
                k != uuid@ ==> #[trigger] final(self).results.spec_lookup(k) == old(self).results.spec_lookup(k),
            status_rel(*old(self), *final(self), *uuid, now, r),
    {
        match self.results.get_at(uuid, now) {
            Some(reply) => Some(reply.status),
            None => None,
        }
    }

    /// Look a job's response up at time `now`; the outer `None` stands for
    /// NotFound, the inner one for a job with no response yet.
    pub fn inference_result_at(&mut self, uuid: &String, now: i64) -> (r: Option<Option<Message>>)
        requires
            old(self).wf(),
        ensures
            final(self).wf(),
            same_config(*old(self), *final(self)),
            match old(self).results.spec_lookup(uuid@) {
                Some(sl) => {
                    if old(self).results.fresh_at(sl, now) {
                        r == Some(sl.reply.response) && *final(self) == *old(self)
                    } else {
                        r is None && final(self).results.spec_lookup(uuid@) is None
                    }
                },
                None => r is None && *final(self) == *old(self),
            },
            forall|k: Seq<char>|
                k != uuid@ ==> #[trigger] final(self).results.spec_lookup(k) == old(self).results.spec_lookup(k),
            result_rel(*old(self), *final(self), *uuid, now, r),
    {
        match self.results.get_at(uuid, now) {
            Some(reply) => Some(reply.response),
            None => None,
        }
    }

    /// As `inference_status_at`, read at the wall clock.
    pub fn inference_status(&mut self, uuid: &String) -> (r: Option<JobStatus>)
        requires
            old(self).wf(),
        ensures
            final(self).wf(),
            same_config(*old(self), *final(self)),
            r matches Some(st) ==> old(self).results.spec_lookup(uuid@) matches Some(sl)
                && sl.reply.status == st,
            old(self).results.spec_lookup(uuid@) is None ==> r is None,
            exists|now: i64| #[trigger] status_rel(*old(self), *final(self), *uuid, now, r),
    {
        let now = now_seconds();
        self.inference_status_at(uuid, now)
    }

    /// As `inference_result_at`, read at the wall clock.
    pub fn inference_result(&mut self, uuid: &String) -> (r: Option<Option<Message>>)
        requires
            old(self).wf(),
        ensures
            final(self).wf(),
            same_config(*old(self), *final(self)),
            r matches Some(resp) ==> old(self).results.spec_lookup(uuid@) matches Some(sl)
                && sl.reply.response == resp,
            old(self).results.spec_lookup(uuid@) is None ==> r is None,
            exists|now: i64| #[trigger] result_rel(*old(self), *final(self), *uuid, now, r),
    {
        let now = now_seconds();
        self.inference_result_at(uuid, now)
    }
}

/// The shared request pipeline: render the system message and the request
/// messages into template inputs, then run the model's inference.
pub fn process_inference_request<T: TextGenerator>(
    model: &T,
    system_prompt: &String,
    sample_len: usize,
    req: &InferenceRunRequest,
) -> Result<String, GenerationError> {
    let prompt = build_prompt_vec(system_prompt, &req.messages);
    model.inference(&prompt, sample_len)
}

} // verus!
