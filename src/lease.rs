//! The exclusive lease on the Brain link, as the daemon grants it.
//!
//! At most one holder has the lease. A request from the holder is granted
//! again; a request from anyone else while the lease is held waits in line,
//! first come first served, either without limit or until its deadline. When
//! the holder gives the lease up, the first waiter gets it. The daemon also
//! runs every device command under a lease of its own kind, so that commands
//! reach the device one at a time, in the order they asked.

use vstd::prelude::*;

verus! {

/// A request waiting for the lease: who asks, and until when (milliseconds on
/// the daemon's clock; `None`: no limit).
#[derive(Debug, Clone, Copy, PartialEq, Eq, Structural)]
pub struct Waiter {
    pub holder: u64,
    pub deadline: Option<u64>,
}

/// The answer to a lease request.
#[derive(Debug, Clone, Copy, PartialEq, Eq, Structural)]
pub enum LeaseDecision {
    /// The requester holds the lease now.
    Granted,
    /// Another holder has it: the request waits in line.
    Queued,
}

/// The deadline of a request made at `now` that waits at most `timeout_ms`
/// (0: no limit).
pub open spec fn deadline_of(now: u64, timeout_ms: u32) -> Option<u64> {
    if timeout_ms == 0 {
        None
    } else if now as int + timeout_ms as int > u64::MAX as int {
        Some(u64::MAX)
    } else {
        Some((now + timeout_ms) as u64)
    }
}

/// Whether a waiter's deadline has passed at `now`.
pub open spec fn expired(w: Waiter, now: u64) -> bool {
    w.deadline matches Some(d) && d <= now
}

/// The lease's holder and its line of waiters, oldest first.
pub ghost struct LeaseView {
    pub holder: Option<u64>,
    pub waiting: Seq<Waiter>,
}

/// The lease after `holder` asks for it at `now`, ready to wait `timeout_ms`.
pub open spec fn after_request(v: LeaseView, holder: u64, timeout_ms: u32, now: u64) -> LeaseView {
    if v.holder is None {
        LeaseView { holder: Some(holder), ..v }
    } else if v.holder == Some(holder) {
        v
    } else {
        LeaseView {
            waiting: v.waiting.push(Waiter { holder, deadline: deadline_of(now, timeout_ms) }),
            ..v
        }
    }
}

/// The lease after `holder` gives it up.
pub open spec fn after_release(v: LeaseView, holder: u64) -> LeaseView {
    if v.holder != Some(holder) {
        v
    } else if v.waiting.len() == 0 {
        LeaseView { holder: None, waiting: v.waiting }
    } else {
        let next = v.waiting[0].holder;
        LeaseView {
            holder: Some(next),
            waiting: v.waiting.drop_first().filter(|w: Waiter| Some(w.holder) != Some(next)),
        }
    }
}

/// The lease after the requests `requests` (who asks, how long they wait,
/// when they ask), in order.
pub open spec fn after_requests(v: LeaseView, requests: Seq<(u64, u32, u64)>) -> LeaseView
    decreases requests.len(),
{
    if requests.len() == 0 {
        v
    } else {
        after_requests(
            after_request(v, requests[0].0, requests[0].1, requests[0].2),
            requests.drop_first(),
        )
    }
}

proof fn lemma_others_wait(v: LeaseView, current: u64, requests: Seq<(u64, u32, u64)>)
    requires
        v.holder == Some(current),
        forall|i: int| 0 <= i < requests.len() ==> (#[trigger] requests[i]).0 != current,
    ensures
        after_requests(v, requests).holder == Some(current),
        after_requests(v, requests).waiting.len() == v.waiting.len() + requests.len(),
        forall|i: int| 0 <= i < v.waiting.len() ==> #[trigger] after_requests(v, requests).waiting[i] == v.waiting[i],
        requests.len() > 0 ==> after_requests(v, requests).waiting[v.waiting.len() as int].holder == requests[0].0,
    decreases requests.len(),
{
    if requests.len() > 0 {
        let w = after_request(v, requests[0].0, requests[0].1, requests[0].2);
        let rest = requests.drop_first();
        assert forall|i: int| 0 <= i < rest.len() implies (#[trigger] rest[i]).0 != current by {
            assert(rest[i] == requests[i + 1]);
        }
        lemma_others_wait(w, current, rest);
        assert forall|i: int| 0 <= i < v.waiting.len() implies #[trigger] after_requests(v, requests).waiting[i] == v.waiting[i] by {
            assert(w.waiting[i] == v.waiting[i]);
        }
        assert(w.waiting[v.waiting.len() as int].holder == requests[0].0);
    }
}

/// Whoever holds the lease keeps it, whatever others ask for meanwhile: each
/// of their requests joins the line, after those already waiting. When the
/// holder gives it up, the first in line gets it. So a device command that
/// arrives while another runs (a reconnection during a transfer, or a second
/// simple command) starts only after the running one has let go.
pub proof fn lemma_lease_serializes(v: LeaseView, current: u64, requests: Seq<(u64, u32, u64)>)
    requires
        v.holder == Some(current),
        forall|i: int| 0 <= i < v.waiting.len() ==> (#[trigger] v.waiting[i]).holder != current,
        forall|i: int| 0 <= i < requests.len() ==> (#[trigger] requests[i]).0 != current,
    ensures
        after_requests(v, requests).holder == Some(current),
        requests.len() > 0 && v.waiting.len() == 0 ==> after_release(after_requests(v, requests), current).holder
            == Some(requests[0].0),
        v.waiting.len() > 0 ==> after_release(after_requests(v, requests), current).holder == Some(
            v.waiting[0].holder,
        ),
{
    lemma_others_wait(v, current, requests);
}

/// The lease and its line of waiters.
#[derive(Debug)]
pub struct Lease {
    holder: Option<u64>,
    waiting: Vec<Waiter>,
}

impl Lease {
    pub closed spec fn spec_holder(&self) -> Option<u64> {
        self.holder
    }

    pub closed spec fn spec_waiting(&self) -> Seq<Waiter> {
        self.waiting@
    }

    /// The holder and the line, as contracts speak of them.
    pub open spec fn spec_view(&self) -> LeaseView {
        LeaseView { holder: self.spec_holder(), waiting: self.spec_waiting() }
    }

    /// Nobody waits while the lease is free, and the holder does not wait
    /// for its own lease.
    pub open spec fn wf(&self) -> bool {
        &&& self.spec_holder() is None ==> self.spec_waiting().len() == 0
        &&& forall|i: int|
            0 <= i < self.spec_waiting().len() ==> Some(#[trigger] self.spec_waiting()[i].holder)
                != self.spec_holder()
    }

    /// A free lease.
    pub fn new() -> (r: Lease)
        ensures
            r.spec_holder() is None,
            r.spec_waiting().len() == 0,
            r.wf(),
    {
        Lease { holder: None, waiting: Vec::new() }
    }

    pub fn holder(&self) -> (r: Option<u64>)
        ensures
            r == self.spec_holder(),
    {
        self.holder
    }

    pub fn waiting_len(&self) -> (r: usize)
        ensures
            r == self.spec_waiting().len(),
    {
        self.waiting.len()
    }

    /// `holder` asks for the lease at `now`, ready to wait `timeout_ms`
    /// milliseconds (0: without limit). A free lease, or one `holder` has
    /// already, is granted; otherwise the request joins the end of the line
    /// and the lease stays where it is.
    pub fn request(&mut self, holder: u64, timeout_ms: u32, now: u64) -> (r: LeaseDecision)
        requires
            old(self).wf(),
        ensures
            final(self).wf(),
            final(self).spec_view() == after_request(old(self).spec_view(), holder, timeout_ms, now),
            old(self).spec_holder() is None ==> {
                &&& r == LeaseDecision::Granted
                &&& final(self).spec_holder() == Some(holder)
                &&& final(self).spec_waiting() == old(self).spec_waiting()
            },
            old(self).spec_holder() == Some(holder) ==> {
                &&& r == LeaseDecision::Granted
                &&& final(self).spec_holder() == old(self).spec_holder()
                &&& final(self).spec_waiting() == old(self).spec_waiting()
            },
            (old(self).spec_holder() is Some && old(self).spec_holder() != Some(holder)) ==> {
                &&& r == LeaseDecision::Queued
                &&& final(self).spec_holder() == old(self).spec_holder()
                &&& final(self).spec_waiting() == old(self).spec_waiting().push(
                    Waiter { holder, deadline: deadline_of(now, timeout_ms) },
                )
            },
    {
        match self.holder {
            None => {
                self.holder = Some(holder);
                LeaseDecision::Granted
            },
            Some(h) => {
                if h == holder {
                    LeaseDecision::Granted
                } else {
                    let deadline = if timeout_ms == 0 {
                        None
                    } else if now > u64::MAX - timeout_ms as u64 {
                        Some(u64::MAX)
                    } else {
                        Some(now + timeout_ms as u64)
                    };
                    self.waiting.push(Waiter { holder, deadline });
                    LeaseDecision::Queued
                }
            },
        }
    }

    /// `holder` gives the lease up. The first waiter in line gets it, and
    /// is returned; the lease is free when nobody waits. A call from anyone
    /// but the holder changes nothing.
    pub fn release(&mut self, holder: u64) -> (r: Option<u64>)
        requires
            old(self).wf(),
        ensures
            final(self).wf(),
            final(self).spec_view() == after_release(old(self).spec_view(), holder),
            old(self).spec_holder() != Some(holder) ==> {
                &&& r is None
                &&& final(self).spec_holder() == old(self).spec_holder()
                &&& final(self).spec_waiting() == old(self).spec_waiting()
            },
            (old(self).spec_holder() == Some(holder) && old(self).spec_waiting().len() == 0) ==> {
                &&& r is None
                &&& final(self).spec_holder() is None
                &&& final(self).spec_waiting().len() == 0
            },
            (old(self).spec_holder() == Some(holder) && old(self).spec_waiting().len() > 0) ==> {
                &&& r == Some(old(self).spec_waiting()[0].holder)
                &&& final(self).spec_holder() == r
                &&& final(self).spec_waiting() == old(self).spec_waiting().drop_first().filter(
                    |w: Waiter| Some(w.holder) != r,
                )
            },
    {
        if self.holder != Some(holder) {
            return None;
        }
        if self.waiting.len() == 0 {
            self.holder = None;
            return None;
        }
        let first = self.waiting.remove(0);
        let next = first.holder;
        let ghost rest = self.waiting@;
        // The new holder may have asked more than once: its later requests
        // are answered by this grant.
        let mut kept: Vec<Waiter> = Vec::new();
        let mut i: usize = 0;
        while i < self.waiting.len()
            invariant
                self.waiting@ == rest,
                i <= rest.len(),
                kept@ == rest.subrange(0, i as int).filter(|w: Waiter| Some(w.holder) != Some(next)),
                forall|j: int| 0 <= j < kept@.len() ==> (#[trigger] kept@[j]).holder != next,
            decreases rest.len() - i,
        {
            let w = self.waiting[i];
            proof {
                rest.subrange(0, i as int).lemma_filter_push(w, |w: Waiter| Some(w.holder) != Some(next));
                assert(rest.subrange(0, i as int + 1) =~= rest.subrange(0, i as int).push(w));
            }
            if w.holder != next {
                kept.push(w);
            }
            i = i + 1;
        }
        assert(rest.subrange(0, rest.len() as int) =~= rest);
        self.waiting = kept;
        self.holder = Some(next);
        Some(next)
    }

    /// Drops from the line every waiter whose deadline has passed at `now`,
    /// and returns them in line order: each gets a `LockTimeout` answer. A
    /// waiter without a deadline never leaves this way, and the holder keeps
    /// the lease.
    pub fn expire(&mut self, now: u64) -> (r: Vec<Waiter>)
        requires
            old(self).wf(),
        ensures
            final(self).wf(),
            final(self).spec_holder() == old(self).spec_holder(),
            final(self).spec_waiting() == old(self).spec_waiting().filter(|w: Waiter| !expired(w, now)),
            r@ == old(self).spec_waiting().filter(|w: Waiter| expired(w, now)),
    {
        let ghost src = self.waiting@;
        let mut kept: Vec<Waiter> = Vec::new();
        let mut gone: Vec<Waiter> = Vec::new();
        let mut i: usize = 0;
        while i < self.waiting.len()
            invariant
                self.waiting@ == src,
                self.wf(),
                i <= src.len(),
                kept@ == src.subrange(0, i as int).filter(|w: Waiter| !expired(w, now)),
                gone@ == src.subrange(0, i as int).filter(|w: Waiter| expired(w, now)),
                forall|j: int| 0 <= j < kept@.len() ==> Some(#[trigger] kept@[j].holder)
                    != self.spec_holder(),
            decreases src.len() - i,
        {
            let w = self.waiting[i];
            proof {
                src.subrange(0, i as int).lemma_filter_push(w, |w: Waiter| !expired(w, now));
                src.subrange(0, i as int).lemma_filter_push(w, |w: Waiter| expired(w, now));
                assert(src.subrange(0, i as int + 1) =~= src.subrange(0, i as int).push(w));
            }
            let is_expired = match w.deadline {
                Some(d) => d <= now,
                None => false,
            };
            if is_expired {
                gone.push(w);
            } else {
                kept.push(w);
            }
            i = i + 1;
        }
        assert(src.subrange(0, src.len() as int) =~= src);
        proof {
            if self.holder is None {
                src.lemma_filter_len(|w: Waiter| !expired(w, now));
            }
        }
        self.waiting = kept;
        gone
    }
}

} // verus!
