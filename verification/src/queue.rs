//! Processing queue: a strict FIFO of encoded jobs behind a single
//! consumer, decoupling "recording ended" from "transcription running".

use vstd::prelude::*;

use crate::session::ProcessingJob;

verus! {

/// The job queue together with the single-worker claim flag.  Producers
/// push without waiting; at most one worker drains at a time, so jobs are
/// processed strictly in submission order and never concurrently.
pub struct ProcessingQueue {
    pub jobs: Vec<ProcessingJob>,
    /// True while a worker owns the consumer role.
    pub worker_active: bool,
}

impl ProcessingQueue {
    /// An empty queue with no worker attached.
    pub fn new() -> (q: ProcessingQueue)
        ensures
            q.jobs@.len() == 0,
            !q.worker_active,
    {
        ProcessingQueue { jobs: Vec::new(), worker_active: false }
    }

    /// Non-blocking submit: the job joins the back of the queue; nothing
    /// else changes, so earlier jobs keep their places.
    pub fn push(&mut self, job: ProcessingJob)
        ensures
            final(self).jobs@ == old(self).jobs@.push(job),
            final(self).worker_active == old(self).worker_active,
    {
        self.jobs.push(job);
    }

    /// Take the oldest job, if any: strict FIFO.
    pub fn pop(&mut self) -> (r: Option<ProcessingJob>)
        ensures
            old(self).jobs@.len() == 0 ==> (r is None && final(self).jobs@ == old(self).jobs@),
            old(self).jobs@.len() > 0 ==> (r == Some(old(self).jobs@[0]) && final(self).jobs@
                == old(self).jobs@.drop_first()),
            final(self).worker_active == old(self).worker_active,
    {
        if self.jobs.len() == 0 {
            None
        } else {
            let job = self.jobs.remove(0);
            proof {
                assert(self.jobs@ =~= old(self).jobs@.drop_first());
            }
            Some(job)
        }
    }

    /// How many jobs wait.
    pub fn len(&self) -> (n: usize)
        ensures
            n == self.jobs@.len(),
    {
        self.jobs.len()
    }

    /// Try to become the consumer.  Succeeds only while no worker is
    /// active, so two workers can never coexist; a fresh worker is spawned
    /// exactly when this returns true.
    pub fn try_claim_worker(&mut self) -> (claimed: bool)
        ensures
            claimed == !old(self).worker_active,
            final(self).worker_active,
            final(self).jobs == old(self).jobs,
    {
        if self.worker_active {
            false
        } else {
            self.worker_active = true;
            true
        }
    }

    /// The worker exits after draining; the consumer role is free again.
    pub fn release_worker(&mut self)
        requires
            old(self).worker_active,
        ensures
            !final(self).worker_active,
            final(self).jobs == old(self).jobs,
    {
        self.worker_active = false;
    }

    /// Drain the queue as the single worker does: the jobs come out
    /// exactly in the order they were submitted.
    pub fn drain_in_order(&mut self) -> (r: Vec<ProcessingJob>)
        ensures
            r@ == old(self).jobs@,
            final(self).jobs@.len() == 0,
            final(self).worker_active == old(self).worker_active,
    {
        let mut out: Vec<ProcessingJob> = Vec::new();
        loop
            invariant
                out@ + self.jobs@ == old(self).jobs@,
                self.worker_active == old(self).worker_active,
            ensures
                out@ == old(self).jobs@,
                self.jobs@.len() == 0,
                self.worker_active == old(self).worker_active,
            decreases self.jobs@.len(),
        {
            match self.pop() {
                Some(job) => {
                    out.push(job);
                    proof {
                        assert(out@ + self.jobs@ =~= old(self).jobs@);
                    }
                }
                None => {
                    proof {
                        assert(out@ =~= out@ + self.jobs@);
                    }
                    break;
                }
            }
        }
        out
    }
}

} // verus!
