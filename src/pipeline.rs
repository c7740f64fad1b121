use vstd::prelude::*;
use vstd::string::StringExecFns;
use crate::candidate::{CandidateView, WatchCandidate};

verus! {

/// The stage at which a pipeline run failed.
#[derive(PartialEq, Eq, Structural, Clone, Copy, Debug)]
pub enum Stage {
    Clone,
    Publish,
}

/// The result of one pipeline run.
pub enum PipelineOutcome {
    Success,
    Failure { stage: Stage, message: String },
}

pub enum OutcomeView {
    Success,
    Failure { stage: Stage, message: Seq<char> },
}

impl View for PipelineOutcome {
    type V = OutcomeView;

    open spec fn view(&self) -> OutcomeView {
        match self {
            PipelineOutcome::Success => OutcomeView::Success,
            PipelineOutcome::Failure { stage, message } => OutcomeView::Failure {
                stage: *stage,
                message: message@,
            },
        }
    }
}

impl PipelineOutcome {
    pub fn is_success(&self) -> (r: bool)
        ensures
            r == (self@ is Success),
    {
        match self {
            PipelineOutcome::Success => true,
            PipelineOutcome::Failure { .. } => false,
        }
    }
}

/// What the outside work of one step reported: it went through, or it failed
/// with a diagnostic text.
pub enum StepResult {
    Done,
    Failed(String),
}

/// The outside work that a pipeline run asks for, in the order given.
pub enum Action {
    /// A human-readable status line for the notifier.
    Notify(String),
    /// Create the run's working directory.
    CreateWorkDir(String),
    /// Clone the repository at `url` into `path`.
    Clone { url: String, path: String },
    /// Build an image from `path` and push it under `tag`.
    BuildAndPush { path: String, tag: String },
    /// The structured success event.
    AnnounceSuccess { name: String, owner: String },
    /// Remove the run's working directory.
    RemoveWorkDir(String),
}

pub enum ActionView {
    Notify(Seq<char>),
    CreateWorkDir(Seq<char>),
    Clone { url: Seq<char>, path: Seq<char> },
    BuildAndPush { path: Seq<char>, tag: Seq<char> },
    AnnounceSuccess { name: Seq<char>, owner: Seq<char> },
    RemoveWorkDir(Seq<char>),
}

impl View for Action {
    type V = ActionView;

    open spec fn view(&self) -> ActionView {
        match self {
            Action::Notify(s) => ActionView::Notify(s@),
            Action::CreateWorkDir(p) => ActionView::CreateWorkDir(p@),
            Action::Clone { url, path } => ActionView::Clone { url: url@, path: path@ },
            Action::BuildAndPush { path, tag } => ActionView::BuildAndPush {
                path: path@,
                tag: tag@,
            },
            Action::AnnounceSuccess { name, owner } => ActionView::AnnounceSuccess {
                name: name@,
                owner: owner@,
            },
            Action::RemoveWorkDir(p) => ActionView::RemoveWorkDir(p@),
        }
    }
}

pub open spec fn actions_view(v: Seq<Action>) -> Seq<ActionView> {
    v.map_values(|a: Action| a@)
}

pub open spec fn starting_line(c: CandidateView) -> Seq<char> {
    "INFO Going on "@ + c.owner + "/"@ + c.name + "!"@
}

/// The working directory of a run, named from owner and name.
pub open spec fn work_dir(c: CandidateView) -> Seq<char> {
    c.owner + " "@ + c.name
}

pub open spec fn clone_url(c: CandidateView) -> Seq<char> {
    "https://github.com/"@ + c.owner + "/"@ + c.name
}

pub open spec fn clone_error_line(c: CandidateView, msg: Seq<char>) -> Seq<char> {
    "ERROR Could not clone "@ + work_dir(c) + ": "@ + msg
}

pub open spec fn publish_error_line(c: CandidateView, msg: Seq<char>) -> Seq<char> {
    "ERROR Could not build image "@ + c.tag + ": "@ + msg
}

pub open spec fn success_line(c: CandidateView) -> Seq<char> {
    "INFO **[SUCCESS]** Built image "@ + c.tag + " successfully"@
}

fn cat(s: String, t: &str) -> (r: String)
    ensures
        r@ == s@ + t@,
{
    let mut s = s;
    s.append(t);
    s
}

fn starting_line_of(c: &WatchCandidate) -> (r: String)
    ensures
        r@ == starting_line(c@),
{
    let s = cat(cat(cat(cat(String::from_str("INFO Going on "), c.owner.as_str()), "/"), c.name.as_str()), "!");
    s
}

fn work_dir_of(c: &WatchCandidate) -> (r: String)
    ensures
        r@ == work_dir(c@),
{
    cat(cat(c.owner.clone(), " "), c.name.as_str())
}

fn clone_url_of(c: &WatchCandidate) -> (r: String)
    ensures
        r@ == clone_url(c@),
{
    cat(cat(cat(String::from_str("https://github.com/"), c.owner.as_str()), "/"), c.name.as_str())
}

fn clone_error_line_of(c: &WatchCandidate, msg: &String) -> (r: String)
    ensures
        r@ == clone_error_line(c@, msg@),
{
    let path = work_dir_of(c);
    cat(cat(cat(String::from_str("ERROR Could not clone "), path.as_str()), ": "), msg.as_str())
}

fn publish_error_line_of(c: &WatchCandidate, msg: &String) -> (r: String)
    ensures
        r@ == publish_error_line(c@, msg@),
{
    cat(cat(cat(String::from_str("ERROR Could not build image "), c.tag.as_str()), ": "), msg.as_str())
}

fn success_line_of(c: &WatchCandidate) -> (r: String)
    ensures
        r@ == success_line(c@),
{
    cat(cat(String::from_str("INFO **[SUCCESS]** Built image "), c.tag.as_str()), " successfully")
}

/// Where a pipeline run stands.
pub enum Phase {
    /// Waiting for the clone to report.
    Cloning,
    /// Waiting for the image build and push to report.
    Publishing,
    /// Over, with its outcome.
    Finished(PipelineOutcome),
}

pub enum PhaseView {
    Cloning,
    Publishing,
    Finished(OutcomeView),
}

impl View for Phase {
    type V = PhaseView;

    open spec fn view(&self) -> PhaseView {
        match self {
            Phase::Cloning => PhaseView::Cloning,
            Phase::Publishing => PhaseView::Publishing,
            Phase::Finished(o) => PhaseView::Finished(o@),
        }
    }
}

/// The actions that start a run: the starting line, the working directory
/// and the clone.
pub open spec fn start_actions(c: CandidateView) -> Seq<ActionView> {
    seq![
        ActionView::Notify(starting_line(c)),
        ActionView::CreateWorkDir(work_dir(c)),
        ActionView::Clone { url: clone_url(c), path: work_dir(c) },
    ]
}

/// The next phase and the actions it asks for, after a step reported
/// `failed` (`None` when it went through).
pub open spec fn step(c: CandidateView, phase: PhaseView, failed: Option<Seq<char>>) -> (
    PhaseView,
    Seq<ActionView>,
) {
    match phase {
        PhaseView::Cloning => match failed {
            None => (
                PhaseView::Publishing,
                seq![ActionView::BuildAndPush { path: work_dir(c), tag: c.tag }],
            ),
            Some(m) => (
                PhaseView::Finished(OutcomeView::Failure { stage: Stage::Clone, message: m }),
                seq![ActionView::Notify(clone_error_line(c, m))],
            ),
        },
        PhaseView::Publishing => match failed {
            None => (
                PhaseView::Finished(OutcomeView::Success),
                seq![
                    ActionView::Notify(success_line(c)),
                    ActionView::AnnounceSuccess { name: c.name, owner: c.owner },
                    ActionView::RemoveWorkDir(work_dir(c)),
                ],
            ),
            Some(m) => (
                PhaseView::Finished(OutcomeView::Failure { stage: Stage::Publish, message: m }),
                seq![ActionView::Notify(publish_error_line(c, m))],
            ),
        },
        PhaseView::Finished(o) => (PhaseView::Finished(o), Seq::empty()),
    }
}

pub open spec fn failure_of(e: StepResult) -> Option<Seq<char>> {
    match e {
        StepResult::Done => None,
        StepResult::Failed(m) => Some(m@),
    }
}

/// A run reaches success only from the publish stage reporting done, and
/// the step that gets it there asks for the success line, the success event
/// and the removal of the working directory; so a commit is recorded only
/// after its image was pushed and the success was announced.
pub proof fn law_success_only_after_publish(c: CandidateView, phase: PhaseView, failed: Option<Seq<char>>)
    requires
        !(phase is Finished),
        step(c, phase, failed).0 == PhaseView::Finished(OutcomeView::Success),
    ensures
        phase is Publishing,
        failed is None,
        step(c, phase, failed).1.contains(ActionView::Notify(success_line(c))),
        step(c, phase, failed).1.contains(ActionView::AnnounceSuccess { name: c.name, owner: c.owner }),
        step(c, phase, failed).1.contains(ActionView::RemoveWorkDir(work_dir(c))),
{
    let a = step(c, phase, failed).1;
    assert(a[0] == ActionView::Notify(success_line(c)));
    assert(a[1] == ActionView::AnnounceSuccess { name: c.name, owner: c.owner });
    assert(a[2] == ActionView::RemoveWorkDir(work_dir(c)));
}

/// One run of the build pipeline for one candidate: clone, then build and
/// publish, then announce and clean up. Each stage stops the run on failure.
pub struct BuildRun {
    candidate: WatchCandidate,
    phase: Phase,
}

impl BuildRun {
    pub closed spec fn candidate_view(&self) -> CandidateView {
        self.candidate@
    }

    pub closed spec fn phase_view(&self) -> PhaseView {
        self.phase@
    }

    /// Starts a run for `candidate`, returning it with the actions to perform.
    pub fn start(candidate: WatchCandidate) -> (r: (BuildRun, Vec<Action>))
        ensures
            r.0.candidate_view() == candidate@,
            r.0.phase_view() is Cloning,
            actions_view(r.1@) == start_actions(candidate@),
    {
        let mut actions: Vec<Action> = Vec::new();
        actions.push(Action::Notify(starting_line_of(&candidate)));
        actions.push(Action::CreateWorkDir(work_dir_of(&candidate)));
        actions.push(Action::Clone { url: clone_url_of(&candidate), path: work_dir_of(&candidate) });
        assert(actions_view(actions@) =~= start_actions(candidate@));
        (BuildRun { candidate, phase: Phase::Cloning }, actions)
    }

    /// Hands the run what the last requested stage reported; returns the
    /// actions to perform next. A finished run stays as it is.
    pub fn advance(&mut self, event: StepResult) -> (r: Vec<Action>)
        ensures
            final(self).candidate_view() == old(self).candidate_view(),
            (final(self).phase_view(), actions_view(r@)) == step(
                old(self).candidate_view(),
                old(self).phase_view(),
                failure_of(event),
            ),
    {
        let ghost c = self.candidate@;
        let ghost ph = self.phase@;
        let ghost f = failure_of(event);
        let mut actions: Vec<Action> = Vec::new();
        match self.phase {
            Phase::Cloning => match event {
                StepResult::Done => {
                    actions.push(Action::BuildAndPush {
                        path: work_dir_of(&self.candidate),
                        tag: self.candidate.tag.clone(),
                    });
                    self.phase = Phase::Publishing;
                },
                StepResult::Failed(m) => {
                    actions.push(Action::Notify(clone_error_line_of(&self.candidate, &m)));
                    self.phase = Phase::Finished(
                        PipelineOutcome::Failure { stage: Stage::Clone, message: m },
                    );
                },
            },
            Phase::Publishing => match event {
                StepResult::Done => {
                    actions.push(Action::Notify(success_line_of(&self.candidate)));
                    actions.push(Action::AnnounceSuccess {
                        name: self.candidate.name.clone(),
                        owner: self.candidate.owner.clone(),
                    });
                    actions.push(Action::RemoveWorkDir(work_dir_of(&self.candidate)));
                    self.phase = Phase::Finished(PipelineOutcome::Success);
                },
                StepResult::Failed(m) => {
                    actions.push(Action::Notify(publish_error_line_of(&self.candidate, &m)));
                    self.phase = Phase::Finished(
                        PipelineOutcome::Failure { stage: Stage::Publish, message: m },
                    );
                },
            },
            Phase::Finished(_) => {},
        }
        assert(actions_view(actions@) =~= step(c, ph, f).1);
        actions
    }

    /// The outcome, once the run is over.
    pub fn outcome(&self) -> (r: Option<&PipelineOutcome>)
        ensures
            match self.phase_view() {
                PhaseView::Finished(o) => r is Some && r->Some_0@ == o,
                _ => r is None,
            },
    {
        match &self.phase {
            Phase::Finished(o) => Some(o),
            _ => None,
        }
    }

    pub fn candidate(&self) -> (r: &WatchCandidate)
        ensures
            r@ == self.candidate_view(),
    {
        &self.candidate
    }
}

} // verus!
