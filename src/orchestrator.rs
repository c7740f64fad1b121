use vstd::prelude::*;
use crate::candidate::{CandidateView, RepoKey, WatchCandidate};
use crate::pipeline::PipelineOutcome;
use crate::store::{is_newer_in, recorded, stored_at, StateStore, StoreMap};

verus! {

/// The change source could not produce its list this cycle.
pub struct ChangeSourceError {
    pub message: String,
}

pub open spec fn cands_view(v: Seq<WatchCandidate>) -> Seq<CandidateView> {
    v.map_values(|c: WatchCandidate| c@)
}

/// The candidates of `s` that are newer than what `m` stores, in their order.
pub open spec fn survivors(m: StoreMap, s: Seq<CandidateView>) -> Seq<CandidateView>
    decreases s.len(),
{
    if s.len() == 0 {
        Seq::empty()
    } else {
        let p = survivors(m, s.drop_last());
        if is_newer_in(m, s.last()) {
            p.push(s.last())
        } else {
            p
        }
    }
}

/// Keeps the candidates that are newer than stored, in the order given.
pub fn surviving(store: &StateStore, listed: &Vec<WatchCandidate>) -> (r: Vec<WatchCandidate>)
    requires
        store.wf(),
    ensures
        cands_view(r@) == survivors(store@, cands_view(listed@)),
{
    let ghost s = cands_view(listed@);
    let mut r: Vec<WatchCandidate> = Vec::new();
    let mut i: usize = 0;
    while i < listed.len()
        invariant
            store.wf(),
            i <= listed@.len(),
            s == cands_view(listed@),
            cands_view(r@) == survivors(store@, s.take(i as int)),
        decreases listed@.len() - i,
    {
        let c = &listed[i];
        assert(s.take(i + 1).drop_last() =~= s.take(i as int));
        assert(s.take(i + 1).last() == c@);
        if store.is_newer_than_stored(c) {
            r.push(c.duplicate());
            assert(cands_view(r@) =~= survivors(store@, s.take(i as int)).push(c@));
        }
        i = i + 1;
    }
    assert(s.take(i as int) =~= s);
    r
}

/// The orchestrator's state, mathematically.
pub struct OrchView {
    pub store: StoreMap,
    pub queue: Seq<CandidateView>,
    pub next: nat,
    pub in_flight: bool,
}

/// A new poll cycle on the listed candidates (`None`: the change source
/// failed, which counts as an empty list). Refused while a build runs.
pub open spec fn begin(o: OrchView, listed: Option<Seq<CandidateView>>) -> OrchView {
    if o.in_flight {
        o
    } else {
        OrchView {
            store: o.store,
            queue: match listed {
                Some(l) => survivors(o.store, l),
                None => Seq::empty(),
            },
            next: 0,
            in_flight: false,
        }
    }
}

/// Hands out the next queued candidate into the build slot, if the slot is
/// free and one is left.
pub open spec fn take(o: OrchView) -> (OrchView, Option<CandidateView>) {
    if !o.in_flight && o.next < o.queue.len() {
        (OrchView { next: o.next + 1, in_flight: true, ..o }, Some(o.queue[o.next as int]))
    } else {
        (o, None)
    }
}

/// Frees the build slot; on success the built candidate's commit is recorded.
pub open spec fn finish(o: OrchView, success: bool) -> OrchView {
    if o.in_flight && o.next > 0 {
        let c = o.queue[o.next - 1];
        OrchView {
            store: if success {
                recorded(o.store, c.key(), c.commit)
            } else {
                o.store
            },
            in_flight: false,
            ..o
        }
    } else {
        o
    }
}

/// Drives a cycle: takes a candidate and finishes it with the next outcome,
/// until the outcomes or the queue run out. Gives the final state and the
/// candidates built, in order.
pub open spec fn drive(o: OrchView, outcomes: Seq<bool>) -> (OrchView, Seq<CandidateView>)
    decreases outcomes.len(),
{
    if outcomes.len() == 0 {
        (o, Seq::empty())
    } else {
        let (o1, c) = take(o);
        match c {
            None => (o, Seq::empty()),
            Some(c) => {
                let (o3, rest) = drive(finish(o1, outcomes[0]), outcomes.drop_first());
                (o3, seq![c] + rest)
            },
        }
    }
}

/// The store after recording, in order, each candidate whose outcome is a
/// success.
pub open spec fn record_all(m: StoreMap, q: Seq<CandidateView>, outcomes: Seq<bool>) -> StoreMap
    decreases q.len(),
{
    if q.len() == 0 || outcomes.len() == 0 {
        m
    } else {
        let m1 = if outcomes[0] {
            recorded(m, q[0].key(), q[0].commit)
        } else {
            m
        };
        record_all(m1, q.drop_first(), outcomes.drop_first())
    }
}

/// Owns the state store and the build slot: at most one candidate is being
/// built at any time, and the store changes only when a build succeeds.
pub struct Orchestrator {
    store: StateStore,
    queue: Vec<WatchCandidate>,
    next: usize,
    in_flight: bool,
}

impl View for Orchestrator {
    type V = OrchView;

    closed spec fn view(&self) -> OrchView {
        OrchView {
            store: self.store@,
            queue: cands_view(self.queue@),
            next: self.next as nat,
            in_flight: self.in_flight,
        }
    }
}

impl Orchestrator {
    pub closed spec fn wf(&self) -> bool {
        &&& self.store.wf()
        &&& self.next <= self.queue@.len()
        &&& self.in_flight ==> self.next > 0
    }

    pub fn new(store: StateStore) -> (r: Orchestrator)
        requires
            store.wf(),
        ensures
            r.wf(),
            r@ == (OrchView { store: store@, queue: Seq::empty(), next: 0, in_flight: false }),
    {
        let r = Orchestrator { store, queue: Vec::new(), next: 0, in_flight: false };
        assert(cands_view(r.queue@) =~= Seq::<CandidateView>::empty());
        r
    }

    /// Starts a poll cycle on what the change source returned. Returns false,
    /// changing nothing, while a build is in flight.
    pub fn begin_cycle(&mut self, listed: Result<Vec<WatchCandidate>, ChangeSourceError>) -> (r:
        bool)
        requires
            old(self).wf(),
        ensures
            final(self).wf(),
            r == !old(self)@.in_flight,
            final(self)@ == begin(
                old(self)@,
                match listed {
                    Ok(l) => Some(cands_view(l@)),
                    Err(_) => None,
                },
            ),
    {
        if self.in_flight {
            return false;
        }
        let queue = match listed {
            Ok(l) => surviving(&self.store, &l),
            Err(_) => {
                let v: Vec<WatchCandidate> = Vec::new();
                assert(cands_view(v@) =~= Seq::<CandidateView>::empty());
                v
            },
        };
        self.queue = queue;
        self.next = 0;
        true
    }

    /// Puts the next candidate of the cycle into the build slot and returns
    /// it; `None` when the slot is taken or the cycle is done.
    pub fn take_next(&mut self) -> (r: Option<WatchCandidate>)
        requires
            old(self).wf(),
        ensures
            final(self).wf(),
            (final(self)@, match r {
                Some(c) => Some(c@),
                None => None,
            }) == take(old(self)@),
    {
        if self.in_flight || self.next >= self.queue.len() {
            return None;
        }
        let c = self.queue[self.next].duplicate();
        self.next = self.next + 1;
        self.in_flight = true;
        Some(c)
    }

    /// Frees the build slot with the outcome of its run, recording the commit
    /// on success. Returns false, changing nothing, when the slot was free.
    pub fn finish(&mut self, outcome: &PipelineOutcome) -> (r: bool)
        requires
            old(self).wf(),
        ensures
            final(self).wf(),
            r == old(self)@.in_flight,
            final(self)@ == finish(old(self)@, outcome@ is Success),
    {
        if !self.in_flight {
            return false;
        }
        if outcome.is_success() {
            let c = &self.queue[self.next - 1];
            self.store.record_success(&c.owner, &c.name, &c.latest_commit_id);
        }
        self.in_flight = false;
        true
    }

    /// Whether a candidate is in the build slot.
    pub fn is_building(&self) -> (r: bool)
        ensures
            r == self@.in_flight,
    {
        self.in_flight
    }

    pub fn store(&self) -> (r: &StateStore)
        requires
            self.wf(),
        ensures
            r.wf(),
            r@ == self@.store,
    {
        &self.store
    }
}

proof fn lemma_survivors(m: StoreMap, s: Seq<CandidateView>)
    ensures
        forall|i: int|
            0 <= i < survivors(m, s).len() ==> is_newer_in(m, #[trigger] survivors(m, s)[i])
                && s.contains(survivors(m, s)[i]),
        forall|i: int| 0 <= i < s.len() && is_newer_in(m, #[trigger] s[i]) ==> survivors(m, s).contains(s[i]),
    decreases s.len(),
{
    if s.len() > 0 {
        let p = s.drop_last();
        lemma_survivors(m, p);
        let sp = survivors(m, p);
        assert forall|i: int| 0 <= i < survivors(m, s).len() implies is_newer_in(m, #[trigger] survivors(m, s)[i])
            && s.contains(survivors(m, s)[i]) by {
            if i < sp.len() {
                assert(survivors(m, s)[i] == sp[i]);
                let j = choose|j: int| 0 <= j < p.len() && p[j] == sp[i];
                assert(s[j] == sp[i]);
            } else {
                assert(survivors(m, s)[i] == s[s.len() - 1]);
            }
        }
        assert forall|i: int| 0 <= i < s.len() && is_newer_in(m, #[trigger] s[i]) implies survivors(m, s).contains(s[i]) by {
            if i < p.len() {
                assert(p[i] == s[i]);
                let j = choose|j: int| 0 <= j < sp.len() && sp[j] == p[i];
                if is_newer_in(m, s.last()) {
                    assert(survivors(m, s)[j] == sp[j]);
                }
            } else {
                assert(survivors(m, s)[sp.len() as int] == s[i]);
            }
        }
    }
}

proof fn lemma_drive(o: OrchView, outcomes: Seq<bool>)
    requires
        !o.in_flight,
        o.next <= o.queue.len(),
        outcomes.len() == o.queue.len() - o.next,
    ensures
        drive(o, outcomes).1 == o.queue.subrange(o.next as int, o.queue.len() as int),
        drive(o, outcomes).0 == (OrchView {
            store: record_all(o.store, o.queue.subrange(o.next as int, o.queue.len() as int), outcomes),
            queue: o.queue,
            next: o.queue.len(),
            in_flight: false,
        }),
    decreases outcomes.len(),
{
    let rest = o.queue.subrange(o.next as int, o.queue.len() as int);
    if outcomes.len() == 0 {
        assert(rest =~= Seq::<CandidateView>::empty());
    } else {
        let o1 = take(o).0;
        let o2 = finish(o1, outcomes[0]);
        lemma_drive(o2, outcomes.drop_first());
        assert(rest.drop_first() =~= o.queue.subrange(o2.next as int, o.queue.len() as int));
        assert(seq![o.queue[o.next as int]] + rest.drop_first() =~= rest);
    }
}

proof fn lemma_record_all_untouched(m: StoreMap, q: Seq<CandidateView>, outcomes: Seq<bool>, k: RepoKey)
    requires
        forall|i: int| 0 <= i < q.len() && i < outcomes.len() && #[trigger] outcomes[i] ==> q[i].key() != k,
    ensures
        stored_at(record_all(m, q, outcomes), k) == stored_at(m, k),
    decreases q.len(),
{
    if q.len() > 0 && outcomes.len() > 0 {
        let m1 = if outcomes[0] { recorded(m, q[0].key(), q[0].commit) } else { m };
        assert forall|i: int| 0 <= i < q.len() - 1 && i < outcomes.len() - 1 && #[trigger] outcomes.drop_first()[i]
            implies q.drop_first()[i].key() != k by {
            assert(outcomes[i + 1]);
        }
        lemma_record_all_untouched(m1, q.drop_first(), outcomes.drop_first(), k);
    }
}

proof fn lemma_record_all_last(m: StoreMap, q: Seq<CandidateView>, outcomes: Seq<bool>, b: int)
    requires
        0 <= b < q.len(),
        b < outcomes.len(),
        outcomes[b],
        forall|k: int| b < k < q.len() && k < outcomes.len() && #[trigger] outcomes[k] ==> q[k].key() != q[b].key(),
    ensures
        stored_at(record_all(m, q, outcomes), q[b].key()) == Some(q[b].commit),
    decreases q.len(),
{
    let m1 = if outcomes[0] { recorded(m, q[0].key(), q[0].commit) } else { m };
    if b == 0 {
        assert forall|i: int| 0 <= i < q.len() - 1 && i < outcomes.len() - 1 && #[trigger] outcomes.drop_first()[i]
            implies q.drop_first()[i].key() != q[b].key() by {
            assert(outcomes[i + 1]);
        }
        lemma_record_all_untouched(m1, q.drop_first(), outcomes.drop_first(), q[b].key());
    } else {
        assert forall|k: int| b - 1 < k < q.len() - 1 && k < outcomes.len() - 1 && #[trigger] outcomes.drop_first()[k]
            implies q.drop_first()[k].key() != q.drop_first()[b - 1].key() by {
            assert(outcomes[k + 1]);
        }
        lemma_record_all_last(m1, q.drop_first(), outcomes.drop_first(), b - 1);
    }
}

/// Sequentiality: a poll cycle with N surviving candidates, each finished
/// before the next is taken, builds exactly those N candidates, in the order
/// the change source gave them, and ends with the build slot free.
pub proof fn law_cycle_builds_each_in_order(o: OrchView, listed: Seq<CandidateView>, outcomes: Seq<bool>)
    requires
        !o.in_flight,
        outcomes.len() == survivors(o.store, listed).len(),
    ensures
        drive(begin(o, Some(listed)), outcomes).1 == survivors(o.store, listed),
        drive(begin(o, Some(listed)), outcomes).0.next == outcomes.len(),
        !drive(begin(o, Some(listed)), outcomes).0.in_flight,
        drive(begin(o, Some(listed)), outcomes).0.store
            == record_all(o.store, survivors(o.store, listed), outcomes),
{
    let s = begin(o, Some(listed));
    lemma_drive(s, outcomes);
    assert(s.queue.subrange(0, s.queue.len() as int) =~= s.queue);
}

/// Single flight: while a candidate is in the build slot no other one is
/// handed out, and no new cycle starts.
pub proof fn law_single_flight(o: OrchView, listed: Option<Seq<CandidateView>>)
    requires
        o.in_flight,
    ensures
        take(o) == (o, None::<CandidateView>),
        begin(o, listed) == o,
{
}

/// Failure isolation: whatever the outcome of an earlier candidate `a`, a
/// later candidate `b` of the same cycle is still built, and on success its
/// commit is what the store holds for it after the cycle (unless a later
/// candidate of the same repository succeeds too).
pub proof fn law_failure_isolation(
    o: OrchView,
    listed: Seq<CandidateView>,
    outcomes: Seq<bool>,
    a: int,
    b: int,
)
    requires
        !o.in_flight,
        outcomes.len() == survivors(o.store, listed).len(),
        0 <= a < b < outcomes.len(),
        !outcomes[a],
        outcomes[b],
        forall|k: int|
            b < k < outcomes.len() && #[trigger] outcomes[k] ==> survivors(o.store, listed)[k].key()
                != survivors(o.store, listed)[b].key(),
    ensures
        drive(begin(o, Some(listed)), outcomes).1[b] == survivors(o.store, listed)[b],
        stored_at(drive(begin(o, Some(listed)), outcomes).0.store, survivors(o.store, listed)[b].key())
            == Some(survivors(o.store, listed)[b].commit),
{
    law_cycle_builds_each_in_order(o, listed, outcomes);
    lemma_record_all_last(o.store, survivors(o.store, listed), outcomes, b);
}

/// Retry by polling: a candidate whose build failed, and whose repository
/// saw no successful build in the cycle, is still newer than stored
/// afterwards, so the next cycle on the same list presents it again.
pub proof fn law_failed_candidate_returns(
    o: OrchView,
    listed: Seq<CandidateView>,
    outcomes: Seq<bool>,
    j: int,
)
    requires
        !o.in_flight,
        outcomes.len() == survivors(o.store, listed).len(),
        0 <= j < outcomes.len(),
        !outcomes[j],
        forall|k: int|
            0 <= k < outcomes.len() && #[trigger] outcomes[k] ==> survivors(o.store, listed)[k].key()
                != survivors(o.store, listed)[j].key(),
    ensures
        is_newer_in(drive(begin(o, Some(listed)), outcomes).0.store, survivors(o.store, listed)[j]),
        survivors(drive(begin(o, Some(listed)), outcomes).0.store, listed).contains(
            survivors(o.store, listed)[j],
        ),
{
    let q = survivors(o.store, listed);
    let c = q[j];
    law_cycle_builds_each_in_order(o, listed, outcomes);
    lemma_survivors(o.store, listed);
    lemma_record_all_untouched(o.store, q, outcomes, c.key());
    let f = drive(begin(o, Some(listed)), outcomes).0.store;
    assert(is_newer_in(f, c));
    let i = choose|i: int| 0 <= i < listed.len() && listed[i] == c;
    lemma_survivors(f, listed);
    assert(is_newer_in(f, listed[i]));
}

} // verus!
