use vstd::prelude::*;

verus! {

/// The key of a watched repository: its owner and its name.
pub type RepoKey = (Seq<char>, Seq<char>);

/// What a candidate is, mathematically.
pub struct CandidateView {
    pub owner: Seq<char>,
    pub name: Seq<char>,
    pub commit: Seq<char>,
    pub tag: Seq<char>,
}

impl CandidateView {
    pub open spec fn key(self) -> RepoKey {
        (self.owner, self.name)
    }
}

/// A watched repository together with its latest remote commit identifier
/// and the tag under which its image is to be published.
pub struct WatchCandidate {
    pub owner: String,
    pub name: String,
    pub latest_commit_id: String,
    pub tag: String,
}

impl View for WatchCandidate {
    type V = CandidateView;

    open spec fn view(&self) -> CandidateView {
        CandidateView {
            owner: self.owner@,
            name: self.name@,
            commit: self.latest_commit_id@,
            tag: self.tag@,
        }
    }
}

impl WatchCandidate {
    pub fn new(owner: String, name: String, latest_commit_id: String, tag: String) -> (r:
        WatchCandidate)
        ensures
            r@ == (CandidateView {
                owner: owner@,
                name: name@,
                commit: latest_commit_id@,
                tag: tag@,
            }),
    {
        WatchCandidate { owner, name, latest_commit_id, tag }
    }

    pub fn duplicate(&self) -> (r: WatchCandidate)
        ensures
            r@ == self@,
    {
        WatchCandidate {
            owner: self.owner.clone(),
            name: self.name.clone(),
            latest_commit_id: self.latest_commit_id.clone(),
            tag: self.tag.clone(),
        }
    }
}

} // verus!
