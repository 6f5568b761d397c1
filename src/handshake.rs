//! The request/reply handshake: send a request, wait for a reply of the
//! expected type, and send again after a failed wait until the attempts run
//! out.
//!
//! The handshake decides; the caller performs. It sends the request when told
//! to, waits for the reply with its own deadline, and reports the outcome.

use vstd::prelude::*;

verus! {

/// Where a handshake stands, as contracts speak of it.
pub ghost struct HandshakeView {
    /// How many times the request may be sent.
    pub max_attempts: nat,
    /// How many times it was sent.
    pub sent: nat,
    /// Whether the handshake has ended.
    pub done: bool,
}

/// What the caller does next, for replies of type `R` and failures of type `E`.
pub enum HandshakeAction<R, E> {
    /// Send the request (again) and wait for its reply.
    Send,
    /// The handshake is over, with this result.
    Done(Result<R, E>),
}

/// The state after one outcome: a reply ends the handshake; a failure sends
/// again while attempts remain, and ends it otherwise.
pub open spec fn next_view(v: HandshakeView, replied: bool) -> HandshakeView {
    if replied {
        HandshakeView { done: true, ..v }
    } else if v.sent < v.max_attempts {
        HandshakeView { sent: v.sent + 1, ..v }
    } else {
        HandshakeView { done: true, ..v }
    }
}

/// How many times the request is sent when the outcomes of the waits are
/// `outcomes` (true: a reply came), from a handshake in state `v`.
pub open spec fn sends(v: HandshakeView, outcomes: Seq<bool>) -> nat
    decreases outcomes.len(),
{
    if v.done || outcomes.len() == 0 {
        v.sent
    } else {
        sends(next_view(v, outcomes[0]), outcomes.drop_first())
    }
}

/// A handshake in progress.
pub struct Handshake {
    max_attempts: usize,
    sent: usize,
    done: bool,
}

impl View for Handshake {
    type V = HandshakeView;

    closed spec fn view(&self) -> HandshakeView {
        HandshakeView {
            max_attempts: self.max_attempts as nat,
            sent: self.sent as nat,
            done: self.done,
        }
    }
}

impl Handshake {
    pub open spec fn wf(&self) -> bool {
        &&& self@.sent <= self@.max_attempts
        &&& self@.max_attempts >= 1
        &&& self@.max_attempts <= usize::MAX
    }

    /// Starts a handshake that sends its request at most `max_attempts`
    /// times. The first send is due at once, and is counted.
    pub fn start(max_attempts: usize) -> (r: Handshake)
        requires
            max_attempts >= 1,
        ensures
            r@ == (HandshakeView { max_attempts: max_attempts as nat, sent: 1, done: false }),
            r.wf(),
    {
        Handshake { max_attempts, sent: 1, done: false }
    }

    pub fn is_done(&self) -> (r: bool)
        ensures
            r == self@.done,
    {
        self.done
    }

    pub fn attempts_made(&self) -> (r: usize)
        ensures
            r == self@.sent,
    {
        self.sent
    }

    /// Takes the outcome of the last wait. A reply, whatever the code it
    /// carries, ends the handshake with that reply; a failure sends again
    /// while attempts remain, and otherwise ends it with that failure.
    pub fn on_outcome<R, E>(&mut self, outcome: Result<R, E>) -> (r: HandshakeAction<R, E>)
        requires
            old(self).wf(),
            !old(self)@.done,
        ensures
            final(self).wf(),
            final(self)@ == next_view(old(self)@, outcome is Ok),
            r is Send <==> !final(self)@.done,
            r matches HandshakeAction::Done(res) ==> res == outcome,
    {
        match outcome {
            Ok(reply) => {
                self.done = true;
                HandshakeAction::Done(Ok(reply))
            },
            Err(e) => {
                if self.sent < self.max_attempts {
                    self.sent = self.sent + 1;
                    HandshakeAction::Send
                } else {
                    self.done = true;
                    HandshakeAction::Done(Err(e))
                }
            },
        }
    }
}

proof fn lemma_sends_all_failed(v: HandshakeView, outcomes: Seq<bool>)
    requires
        !v.done,
        1 <= v.sent <= v.max_attempts,
        outcomes.len() >= v.max_attempts - v.sent,
        forall|i: int| 0 <= i < outcomes.len() ==> !outcomes[i],
    ensures
        sends(v, outcomes) == v.max_attempts,
    decreases outcomes.len(),
{
    if outcomes.len() > 0 {
        let w = next_view(v, outcomes[0]);
        let rest = outcomes.drop_first();
        assert(!outcomes[0]);
        assert forall|i: int| 0 <= i < rest.len() implies !rest[i] by {
            assert(rest[i] == outcomes[i + 1]);
        }
        if v.sent < v.max_attempts {
            lemma_sends_all_failed(w, rest);
        } else {
            assert(w.done);
            assert(sends(w, rest) == w.sent);
        }
        assert(sends(v, outcomes) == sends(w, rest));
    }
}

proof fn lemma_sends_until_reply(v: HandshakeView, outcomes: Seq<bool>, k: int)
    requires
        !v.done,
        1 <= v.sent,
        v.sent + k <= v.max_attempts,
        0 <= k < outcomes.len(),
        outcomes[k],
        forall|i: int| 0 <= i < k ==> !outcomes[i],
    ensures
        sends(v, outcomes) == v.sent + k,
    decreases k,
{
    let w = next_view(v, outcomes[0]);
    let rest = outcomes.drop_first();
    if k > 0 {
        assert(!outcomes[0]);
        assert forall|i: int| 0 <= i < k - 1 implies !rest[i] by {
            assert(rest[i] == outcomes[i + 1]);
        }
        assert(rest[k - 1] == outcomes[k]);
        lemma_sends_until_reply(w, rest, k - 1);
    } else {
        assert(w.done);
        assert(sends(w, rest) == w.sent);
    }
    assert(sends(v, outcomes) == sends(w, rest));
}

/// A handshake allowed `n` attempts sends its request exactly `n` times when
/// every wait fails, and exactly `k + 1` times when the first reply comes on
/// wait `k` (counting from 0) within the allowance: it stops at once.
pub proof fn lemma_handshake_attempts(n: nat, outcomes: Seq<bool>, k: int)
    requires
        n >= 1,
    ensures
        (outcomes.len() >= n && forall|i: int| 0 <= i < outcomes.len() ==> !outcomes[i])
            ==> sends(HandshakeView { max_attempts: n, sent: 1, done: false }, outcomes) == n,
        (0 <= k < n && k < outcomes.len() && outcomes[k] && forall|i: int| 0 <= i < k ==> !outcomes[i])
            ==> sends(HandshakeView { max_attempts: n, sent: 1, done: false }, outcomes) == k + 1,
{
    let v = HandshakeView { max_attempts: n, sent: 1, done: false };
    if outcomes.len() >= n && forall|i: int| 0 <= i < outcomes.len() ==> !outcomes[i] {
        lemma_sends_all_failed(v, outcomes);
    }
    if 0 <= k < n && k < outcomes.len() && outcomes[k] && forall|i: int| 0 <= i < k ==> !outcomes[i] {
        lemma_sends_until_reply(v, outcomes, k);
    }
}

} // verus!
