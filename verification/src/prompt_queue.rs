//! The bounded FIFO of pending jobs.
//!
//! Admission enqueues a job when the inference slot is busy; the drainer
//! dequeues in enqueue order. An enqueue past the bound is rejected, never
//! blocked on.

use vstd::prelude::*;
use crate::api::InferenceRunRequest;
use crate::errors::QueueFullError;

verus! {

/// One pending job: its fresh id and the request to run.
#[derive(Debug)]
pub struct QueuedRequest {
    pub job_id: String,
    pub request: InferenceRunRequest,
}

#[derive(Debug)]
pub struct PromptQueue {
    items: Vec<QueuedRequest>,
    capacity: usize,
}

/// The pending jobs, front of the queue first.
impl View for PromptQueue {
    type V = Seq<QueuedRequest>;

    closed spec fn view(&self) -> Seq<QueuedRequest> {
        self.items@
    }
}

impl PromptQueue {
    /// The configured bound.
    pub closed spec fn cap(&self) -> nat {
        self.capacity as nat
    }

    /// Never more pending jobs than the bound.
    pub open spec fn wf(&self) -> bool {
        self@.len() <= self.cap()
    }

    pub fn new(buffer_size: usize) -> (q: PromptQueue)
        ensures
            q@ == Seq::<QueuedRequest>::empty(),
            q.cap() == buffer_size as nat,
            q.wf(),
    {
        PromptQueue { items: Vec::new(), capacity: buffer_size }
    }

    pub fn len(&self) -> (n: usize)
        ensures
            n as nat == self@.len(),
    {
        self.items.len()
    }

    /// Accept the job at the back of the queue, unless the bound is reached.
    pub fn enqueue(&mut self, job_id: String, request: InferenceRunRequest) -> (r: Result<
        (),
        QueueFullError,
    >)
        requires
            old(self).wf(),
        ensures
            final(self).wf(),
            final(self).cap() == old(self).cap(),
            old(self)@.len() < old(self).cap() ==> r is Ok && final(self)@ == old(
                self,
            )@.push(QueuedRequest { job_id, request }),
            old(self)@.len() >= old(self).cap() ==> r is Err && *final(self) == *old(self),
    {
        if self.items.len() < self.capacity {
            self.items.push(QueuedRequest { job_id, request });
            Ok(())
        } else {
            Err(QueueFullError)
        }
    }

    /// Take the front job, if any; never blocks.
    pub fn dequeue(&mut self) -> (r: Option<QueuedRequest>)
        requires
            old(self).wf(),
        ensures
            final(self).wf(),
            final(self).cap() == old(self).cap(),
            old(self)@.len() == 0 ==> r is None && *final(self) == *old(self),
            old(self)@.len() > 0 ==> r == Some(old(self)@[0]) && final(self)@ == old(
                self,
            )@.drop_first(),
    {
        if self.items.len() > 0 {
            let front = self.items.remove(0);
            assert(self.items@ =~= old(self).items@.drop_first());
            Some(front)
        } else {
            None
        }
    }
}

} // verus!
