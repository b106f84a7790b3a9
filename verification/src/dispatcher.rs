use vstd::prelude::*;

verus! {

/// What a delivery cycle reports: how many payloads were sent, and whether
/// the cycle aborted early on a failed send.
#[derive(Debug, Clone, Copy, PartialEq, Eq, Structural)]
pub struct DeliveryOutcome {
    pub sent: usize,
    pub aborted: bool,
}

/// Sends one cycle's payloads to the destination strictly in extraction
/// order, one message per payload. The first failed send aborts the rest of
/// the cycle: no later payload is offered again, and the count of sends that
/// succeeded before the failure is reported.
///
/// The caller performs each send: it asks for the next payload, performs the
/// send, and records whether the send succeeded.
pub struct Dispatcher {
    payloads: Vec<String>,
    sent: usize,
    failed: bool,
}

impl Dispatcher {
    /// The payloads this cycle was given, in extraction order.
    pub closed spec fn payloads(&self) -> Seq<Seq<char>> {
        self.payloads.deep_view()
    }

    /// How many payloads were sent successfully so far.
    pub closed spec fn sent_count(&self) -> int {
        self.sent as int
    }

    /// Whether a send has failed, aborting the rest of the cycle.
    pub closed spec fn has_failed(&self) -> bool {
        self.failed
    }

    pub open spec fn well_formed(&self) -> bool {
        self.sent_count() <= self.payloads().len() && (self.has_failed() ==> self.sent_count()
            < self.payloads().len())
    }

    pub fn new(payloads: Vec<String>) -> (d: Self)
        ensures
            d.well_formed(),
            d.payloads() == payloads.deep_view(),
            d.sent_count() == 0,
            !d.has_failed(),
    {
        Dispatcher { payloads, sent: 0, failed: false }
    }

    /// The next payload to attempt: the first payload not yet sent, in input
    /// order; nothing once every payload was sent or a send has failed.
    pub fn next_payload(&self) -> (r: Option<&String>)
        requires
            self.well_formed(),
        ensures
            match r {
                Some(p) => !self.has_failed() && self.sent_count() < self.payloads().len()
                    && p.deep_view() == self.payloads()[self.sent_count()],
                None => self.has_failed() || self.sent_count() == self.payloads().len(),
            },
    {
        if self.failed || self.sent >= self.payloads.len() {
            None
        } else {
            Some(&self.payloads[self.sent])
        }
    }

    /// How many sends have succeeded so far.
    pub fn sent_so_far(&self) -> (r: usize)
        ensures
            r as int == self.sent_count(),
    {
        self.sent
    }

    /// Record that the payload last offered was sent successfully.
    pub fn record_success(&mut self)
        requires
            old(self).well_formed(),
            !old(self).has_failed(),
            old(self).sent_count() < old(self).payloads().len(),
        ensures
            final(self).well_formed(),
            final(self).payloads() == old(self).payloads(),
            final(self).sent_count() == old(self).sent_count() + 1,
            !final(self).has_failed(),
    {
        proof {
            vstd::std_specs::vec::axiom_spec_len(&self.payloads);
            assert(self.payloads.deep_view().len() == self.payloads@.len());
        }
        self.sent = self.sent + 1;
    }

    /// Record that the send of the payload last offered failed: the rest of
    /// the cycle is aborted and no later payload is offered.
    pub fn record_failure(&mut self)
        requires
            old(self).well_formed(),
            !old(self).has_failed(),
            old(self).sent_count() < old(self).payloads().len(),
        ensures
            final(self).well_formed(),
            final(self).payloads() == old(self).payloads(),
            final(self).sent_count() == old(self).sent_count(),
            final(self).has_failed(),
    {
        self.failed = true;
    }

    /// What the cycle reports: the number of successful sends, and whether
    /// the cycle aborted early.
    pub fn outcome(&self) -> (o: DeliveryOutcome)
        ensures
            o.sent as int == self.sent_count(),
            o.aborted == self.has_failed(),
    {
        DeliveryOutcome { sent: self.sent, aborted: self.failed }
    }
}

/// The number of sends a cycle completes when the send at each position
/// succeeds exactly where `results` holds: the length of the longest
/// all-successful prefix of `results`.
pub open spec fn successes_before_failure(results: Seq<bool>) -> int
    decreases results.len(),
{
    if results.len() == 0 {
        0
    } else if !results[0] {
        0
    } else {
        1 + successes_before_failure(results.drop_first())
    }
}

/// The longest all-successful prefix ends exactly at the first failure, or
/// takes the whole run when no send fails.
pub proof fn lemma_successes_prefix(results: Seq<bool>, k: int)
    requires
        0 <= k <= results.len(),
        forall|j: int| 0 <= j < k ==> results[j],
        k < results.len() ==> !results[k],
    ensures
        successes_before_failure(results) == k,
    decreases k,
{
    if k == 0 {
    } else {
        assert(results[0]);
        lemma_successes_prefix(results.drop_first(), k - 1);
    }
}

/// Law: when every send before position `k` succeeds and the send at
/// position `k` fails, exactly `k` successes are counted — nothing from
/// position `k` on is part of the delivered prefix.
pub proof fn lemma_failure_stops_delivery(results: Seq<bool>, k: int)
    requires
        0 <= k < results.len(),
        !results[k],
        forall|j: int| 0 <= j < k ==> results[j],
    ensures
        successes_before_failure(results) == k,
{
    lemma_successes_prefix(results, k);
}

/// Law: when every send succeeds, every payload is delivered.
pub proof fn lemma_all_sends_succeed(results: Seq<bool>)
    requires
        forall|j: int| 0 <= j < results.len() ==> results[j],
    ensures
        successes_before_failure(results) == results.len(),
{
    lemma_successes_prefix(results, results.len() as int);
}

/// Deliver a cycle's payloads against a given run of send outcomes:
/// `results[i]` says whether the send of the i-th payload would succeed.
/// Payloads are attempted strictly in input order; the first failure aborts
/// the rest, and the count of sends before it is reported.
pub fn deliver_with(payloads: Vec<String>, results: &Vec<bool>) -> (o: DeliveryOutcome)
    requires
        results@.len() == payloads@.len(),
    ensures
        o.sent as int == successes_before_failure(results@),
        o.aborted == (successes_before_failure(results@) < results@.len()),
{
    let ghost n: int = payloads@.len() as int;
    let mut d = Dispatcher::new(payloads);
    loop
        invariant
            d.well_formed(),
            d.payloads().len() == n,
            results@.len() == n,
            forall|j: int| 0 <= j < d.sent_count() ==> results@[j],
            d.has_failed() ==> !results@[d.sent_count()],
        ensures
            d.well_formed(),
            d.payloads().len() == n,
            forall|j: int| 0 <= j < d.sent_count() ==> results@[j],
            d.has_failed() ==> !results@[d.sent_count()],
            d.has_failed() || d.sent_count() == n,
        decreases n - d.sent_count() + (if d.has_failed() {
            0int
        } else {
            1int
        }),
    {
        let more: bool = match d.next_payload() {
            Some(_) => true,
            None => false,
        };
        if more {
            let i = d.sent_so_far();
            if results[i] {
                d.record_success();
            } else {
                d.record_failure();
            }
        } else {
            break;
        }
    }
    proof {
        lemma_successes_prefix(results@, d.sent_count());
    }
    d.outcome()
}

} // verus!
