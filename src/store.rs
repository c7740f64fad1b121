use vstd::prelude::*;
use crate::candidate::{CandidateView, RepoKey, WatchCandidate};

verus! {

/// The last successfully built commit identifier of one repository.
pub struct BuildRecord {
    pub owner: String,
    pub name: String,
    pub commit_id: String,
}

pub struct RecordView {
    pub key: RepoKey,
    pub commit: Seq<char>,
}

impl View for BuildRecord {
    type V = RecordView;

    open spec fn view(&self) -> RecordView {
        RecordView { key: (self.owner@, self.name@), commit: self.commit_id@ }
    }
}

/// The stored commit identifiers, keyed by repository.
pub type StoreMap = Map<RepoKey, Seq<char>>;

/// The map that a list of records describes: a later record of a key
/// overrides an earlier one.
pub open spec fn records_map(s: Seq<RecordView>) -> StoreMap
    decreases s.len(),
{
    if s.len() == 0 {
        Map::empty()
    } else {
        records_map(s.drop_last()).insert(s.last().key, s.last().commit)
    }
}

pub open spec fn keys_unique(s: Seq<RecordView>) -> bool {
    forall|i: int, j: int| 0 <= i < s.len() && 0 <= j < s.len() && i != j ==> s[i].key != s[j].key
}

/// Whether a commit identifier counts as newer than what is stored: there is
/// no stored identifier, or it differs.
pub open spec fn newer_than(stored: Option<Seq<char>>, commit: Seq<char>) -> bool {
    match stored {
        None => true,
        Some(s) => s != commit,
    }
}

pub open spec fn stored_at(m: StoreMap, k: RepoKey) -> Option<Seq<char>> {
    if m.contains_key(k) {
        Some(m[k])
    } else {
        None
    }
}

/// Whether a candidate is newer than what the store holds for its repository.
pub open spec fn is_newer_in(m: StoreMap, c: CandidateView) -> bool {
    newer_than(stored_at(m, c.key()), c.commit)
}

/// The store after a successful build of `commit` for repository `k`.
pub open spec fn recorded(m: StoreMap, k: RepoKey, commit: Seq<char>) -> StoreMap {
    m.insert(k, commit)
}

proof fn lemma_records_map(s: Seq<RecordView>)
    ensures
        forall|k: RepoKey| #[trigger]
            records_map(s).contains_key(k) <==> exists|i: int| 0 <= i < s.len() && s[i].key == k,
        keys_unique(s) ==> forall|i: int|
            0 <= i < s.len() ==> #[trigger] records_map(s)[s[i].key] == s[i].commit,
    decreases s.len(),
{
    if s.len() > 0 {
        let p = s.drop_last();
        lemma_records_map(p);
        assert forall|k: RepoKey| #[trigger]
            records_map(s).contains_key(k) <==> exists|i: int|
                0 <= i < s.len() && s[i].key == k by {
            if records_map(p).contains_key(k) {
                let i = choose|i: int| 0 <= i < p.len() && p[i].key == k;
                assert(s[i].key == k);
            }
            if exists|i: int| 0 <= i < s.len() && s[i].key == k {
                let i = choose|i: int| 0 <= i < s.len() && s[i].key == k;
                if i < p.len() {
                    assert(p[i].key == k);
                }
            }
        }
        if keys_unique(s) {
            assert(keys_unique(p)) by {
                assert forall|i: int, j: int|
                    0 <= i < p.len() && 0 <= j < p.len() && i != j implies p[i].key != p[j].key by {
                    assert(p[i] == s[i] && p[j] == s[j]);
                }
            }
            assert forall|i: int| 0 <= i < s.len() implies #[trigger] records_map(s)[s[i].key]
                == s[i].commit by {
                if i < p.len() {
                    assert(p[i] == s[i]);
                    assert(s[i].key != s[s.len() - 1].key);
                    assert(records_map(p)[p[i].key] == p[i].commit);
                }
            }
        }
    }
}

/// The persisted build records: at most one per repository.
pub struct StateStore {
    records: Vec<BuildRecord>,
}

impl View for StateStore {
    type V = StoreMap;

    closed spec fn view(&self) -> StoreMap {
        records_map(self.records@.map_values(|r: BuildRecord| r@))
    }
}

impl StateStore {
    pub closed spec fn wf(&self) -> bool {
        keys_unique(self.records@.map_values(|r: BuildRecord| r@))
    }

    /// An empty store.
    pub fn new() -> (r: StateStore)
        ensures
            r.wf(),
            r@ == StoreMap::empty(),
    {
        let r = StateStore { records: Vec::new() };
        assert(r.records@.map_values(|r: BuildRecord| r@) =~= Seq::<RecordView>::empty());
        r
    }

    fn find(&self, owner: &String, name: &String) -> (r: Option<usize>)
        requires
            self.wf(),
        ensures
            match r {
                None => !self@.contains_key((owner@, name@)),
                Some(i) => i < self.records@.len() && self.records@[i as int]@.key == (
                owner@,
                name@,
                ) && self@.contains_key((owner@, name@)) && self@[(owner@, name@)] == self.records@[i as int].commit_id@,
            },
    {
        let ghost s = self.records@.map_values(|r: BuildRecord| r@);
        proof {
            lemma_records_map(s);
        }
        let mut i: usize = 0;
        while i < self.records.len()
            invariant
                i <= self.records@.len(),
                s == self.records@.map_values(|r: BuildRecord| r@),
                forall|j: int| 0 <= j < i ==> s[j].key != (owner@, name@),
                keys_unique(s),
            decreases self.records@.len() - i,
        {
            let rec = &self.records[i];
            if rec.owner == *owner && rec.name == *name {
                assert(s[i as int].key == (owner@, name@));
                proof {
                    lemma_records_map(s);
                }
                assert(records_map(s)[s[i as int].key] == s[i as int].commit);
                return Some(i);
            }
            assert(s[i as int].key != (owner@, name@));
            i = i + 1;
        }
        None
    }

    /// The commit identifier stored for a repository, if any.
    pub fn stored(&self, owner: &String, name: &String) -> (r: Option<&String>)
        requires
            self.wf(),
        ensures
            match r {
                None => stored_at(self@, (owner@, name@)) is None,
                Some(s) => stored_at(self@, (owner@, name@)) == Some(s@),
            },
    {
        match self.find(owner, name) {
            None => None,
            Some(i) => Some(&self.records[i].commit_id),
        }
    }

    /// Whether the candidate differs from what is recorded for its repository.
    pub fn is_newer_than_stored(&self, c: &WatchCandidate) -> (r: bool)
        requires
            self.wf(),
        ensures
            r == is_newer_in(self@, c@),
    {
        is_newer(self.stored(&c.owner, &c.name), c)
    }

    /// Records `commit_id` as the last successful build of a repository,
    /// overwriting what was there.
    pub fn record_success(&mut self, owner: &String, name: &String, commit_id: &String)
        requires
            old(self).wf(),
        ensures
            final(self).wf(),
            final(self)@ == recorded(old(self)@, (owner@, name@), commit_id@),
    {
        let ghost s0 = self.records@.map_values(|r: BuildRecord| r@);
        let ghost k = (owner@, name@);
        let rec = BuildRecord { owner: owner.clone(), name: name.clone(), commit_id: commit_id.clone() };
        match self.find(owner, name) {
            None => {
                self.records.push(rec);
                let ghost s1 = self.records@.map_values(|r: BuildRecord| r@);
                assert(s1.drop_last() =~= s0);
                proof {
                    lemma_records_map(s0);
                    assert(keys_unique(s1)) by {
                        assert forall|a: int, b: int|
                            0 <= a < s1.len() && 0 <= b < s1.len() && a != b implies s1[a].key
                            != s1[b].key by {
                            if a < s0.len() {
                                assert(s1[a] == s0[a]);
                            }
                            if b < s0.len() {
                                assert(s1[b] == s0[b]);
                            }
                        }
                    }
                }
            },
            Some(i) => {
                self.records.set(i, rec);
                let ghost s1 = self.records@.map_values(|r: BuildRecord| r@);
                assert(s1 =~= s0.update(i as int, rec@));
                proof {
                    lemma_records_map(s0);
                    lemma_records_map(s1);
                    assert forall|j: int| 0 <= j < s1.len() implies s1[j].key == s0[j].key by {}
                    assert(s0[i as int].key == k);
                    assert(records_map(s0).contains_key(k));
                    assert(keys_unique(s1));
                    assert forall|q: RepoKey| #[trigger] records_map(s1).contains_key(q)
                        <==> recorded(records_map(s0), k, commit_id@).contains_key(q) by {
                        if records_map(s1).contains_key(q) {
                            let j = choose|j: int| 0 <= j < s1.len() && s1[j].key == q;
                            assert(s0[j].key == q);
                        }
                        if records_map(s0).contains_key(q) {
                            let j = choose|j: int| 0 <= j < s0.len() && s0[j].key == q;
                            assert(s1[j].key == q);
                        }
                    }
                    assert forall|q: RepoKey| #[trigger] records_map(s1).contains_key(q)
                        implies records_map(s1)[q] == recorded(records_map(s0), k, commit_id@)[q] by {
                        let j = choose|j: int| 0 <= j < s1.len() && s1[j].key == q;
                        assert(records_map(s1)[s1[j].key] == s1[j].commit);
                        if j != i {
                            assert(records_map(s0)[s0[j].key] == s0[j].commit);
                        }
                    }
                    assert(records_map(s1) =~= recorded(records_map(s0), k, commit_id@));
                }
            },
        }
    }

    /// The records held, one per repository.
    pub fn records(&self) -> (r: &Vec<BuildRecord>)
        requires
            self.wf(),
        ensures
            keys_unique(r@.map_values(|b: BuildRecord| b@)),
            records_map(r@.map_values(|b: BuildRecord| b@)) == self@,
    {
        &self.records
    }
}

/// The "newer than stored" decision on its own: true when nothing is stored,
/// or when the stored identifier differs from the candidate's.
pub fn is_newer(stored: Option<&String>, c: &WatchCandidate) -> (r: bool)
    ensures
        r == newer_than(
            match stored {
                None => None,
                Some(s) => Some(s@),
            },
            c@.commit,
        ),
{
    match stored {
        None => true,
        Some(s) => !(*s == c.latest_commit_id),
    }
}

/// A candidate of a repository with no record is always newer than stored.
pub proof fn law_unrecorded_is_newer(m: StoreMap, c: CandidateView)
    requires
        !m.contains_key(c.key()),
    ensures
        is_newer_in(m, c),
{
}

/// Once a candidate's commit is recorded, the candidate is no longer newer
/// than stored.
pub proof fn law_recorded_is_not_newer(m: StoreMap, c: CandidateView)
    ensures
        !is_newer_in(recorded(m, c.key(), c.commit), c),
{
}

/// Recording the same identifier twice leaves the store as recording it once.
pub proof fn law_record_idempotent(m: StoreMap, k: RepoKey, commit: Seq<char>)
    ensures
        recorded(recorded(m, k, commit), k, commit) == recorded(m, k, commit),
{
    assert(recorded(recorded(m, k, commit), k, commit) =~= recorded(m, k, commit));
}

} // verus!
