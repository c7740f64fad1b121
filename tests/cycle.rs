use bob::candidate::WatchCandidate;
use bob::orchestrator::{surviving, ChangeSourceError, Orchestrator};
use bob::pipeline::{Action, BuildRun, PipelineOutcome, Stage, StepResult};
use bob::store::StateStore;

fn cand(owner: &str, name: &str, commit: &str) -> WatchCandidate {
    WatchCandidate::new(
        owner.to_string(),
        name.to_string(),
        commit.to_string(),
        format!("{}/{}:{}", owner, name, commit),
    )
}

fn listing() -> Vec<WatchCandidate> {
    vec![cand("a", "b", "c1")]
}

#[derive(Default)]
struct Sink {
    starting: usize,
    errors: usize,
    successes: usize,
}

impl Sink {
    fn take(&mut self, actions: &[Action]) {
        for a in actions {
            match a {
                Action::Notify(l) if l.starts_with("INFO Going on") => self.starting += 1,
                Action::Notify(l) if l.starts_with("ERROR") => self.errors += 1,
                Action::AnnounceSuccess { .. } => self.successes += 1,
                _ => {}
            }
        }
    }
}

/// Runs one candidate through the pipeline, failing the stages asked for.
fn run_one(c: WatchCandidate, sink: &mut Sink, clone_fails: bool, publish_fails: bool) -> PipelineOutcome {
    let (mut run, actions) = BuildRun::start(c);
    sink.take(&actions);
    let e1 = if clone_fails { StepResult::Failed("clone".to_string()) } else { StepResult::Done };
    sink.take(&run.advance(e1));
    if !clone_fails {
        let e2 = if publish_fails { StepResult::Failed("push".to_string()) } else { StepResult::Done };
        sink.take(&run.advance(e2));
    }
    match run.outcome().unwrap() {
        PipelineOutcome::Success => PipelineOutcome::Success,
        PipelineOutcome::Failure { stage, message } => PipelineOutcome::Failure { stage: *stage, message: message.clone() },
    }
}

#[test]
fn end_to_end_success() {
    let mut orch = Orchestrator::new(StateStore::new());
    let mut sink = Sink::default();
    assert!(orch.begin_cycle(Ok(listing())));
    let c = orch.take_next().unwrap();
    assert!(orch.is_building());
    let outcome = run_one(c, &mut sink, false, false);
    assert!(orch.finish(&outcome));
    assert!(orch.take_next().is_none());
    assert_eq!(orch.store().stored(&"a".to_string(), &"b".to_string()).cloned(), Some("c1".to_string()));
    assert_eq!(sink.starting, 1);
    assert_eq!(sink.errors, 0);
    assert_eq!(sink.successes, 1);
    assert!(orch.begin_cycle(Ok(listing())));
    assert!(orch.take_next().is_none());
}

#[test]
fn end_to_end_publish_failure() {
    let mut orch = Orchestrator::new(StateStore::new());
    let mut sink = Sink::default();
    orch.begin_cycle(Ok(listing()));
    let c = orch.take_next().unwrap();
    let outcome = run_one(c, &mut sink, false, true);
    assert!(matches!(outcome, PipelineOutcome::Failure { stage: Stage::Publish, .. }));
    orch.finish(&outcome);
    assert!(orch.store().stored(&"a".to_string(), &"b".to_string()).is_none());
    assert_eq!(orch.store().records().len(), 0);
    assert_eq!(sink.starting, 1);
    assert_eq!(sink.errors, 1);
    assert_eq!(sink.successes, 0);
    orch.begin_cycle(Ok(listing()));
    let again = orch.take_next().unwrap();
    assert_eq!(again.owner, "a");
    assert_eq!(again.name, "b");
    assert_eq!(again.latest_commit_id, "c1");
}

#[test]
fn cycle_builds_in_order_one_at_a_time() {
    let mut orch = Orchestrator::new(StateStore::new());
    let list = vec![cand("a", "one", "1"), cand("a", "two", "2"), cand("a", "three", "3")];
    orch.begin_cycle(Ok(list));
    let mut seen = Vec::new();
    while let Some(c) = orch.take_next() {
        assert!(orch.take_next().is_none());
        assert!(!orch.begin_cycle(Ok(vec![cand("z", "z", "z")])));
        seen.push(c.name.clone());
        assert!(orch.finish(&PipelineOutcome::Success));
    }
    assert_eq!(seen, vec!["one", "two", "three"]);
    assert!(!orch.finish(&PipelineOutcome::Success));
}

#[test]
fn failed_publish_does_not_block_later_candidate() {
    let mut orch = Orchestrator::new(StateStore::new());
    let mut sink = Sink::default();
    orch.begin_cycle(Ok(vec![cand("a", "x", "1"), cand("a", "y", "2")]));
    let first = orch.take_next().unwrap();
    let o1 = run_one(first, &mut sink, false, true);
    orch.finish(&o1);
    let second = orch.take_next().unwrap();
    assert_eq!(second.name, "y");
    let o2 = run_one(second, &mut sink, false, false);
    orch.finish(&o2);
    assert!(orch.store().stored(&"a".to_string(), &"x".to_string()).is_none());
    assert_eq!(orch.store().stored(&"a".to_string(), &"y".to_string()).cloned(), Some("2".to_string()));
}

#[test]
fn clone_failure_is_retried_next_cycle() {
    let mut orch = Orchestrator::new(StateStore::new());
    let mut sink = Sink::default();
    orch.begin_cycle(Ok(listing()));
    let c = orch.take_next().unwrap();
    let o = run_one(c, &mut sink, true, false);
    orch.finish(&o);
    assert_eq!(sink.errors, 1);
    orch.begin_cycle(Ok(listing()));
    assert_eq!(orch.take_next().unwrap().latest_commit_id, "c1");
}

#[test]
fn change_source_failure_is_an_empty_cycle() {
    let mut orch = Orchestrator::new(StateStore::new());
    assert!(orch.begin_cycle(Err(ChangeSourceError { message: "rate limited".to_string() })));
    assert!(orch.take_next().is_none());
}

#[test]
fn filter_keeps_order_and_drops_recorded() {
    let mut store = StateStore::new();
    store.record_success(&"a".to_string(), &"b".to_string(), &"c1".to_string());
    let list = vec![cand("a", "b", "c1"), cand("a", "z", "9"), cand("a", "b", "c2"), cand("q", "b", "c1")];
    let kept = surviving(&store, &list);
    let got: Vec<(String, String)> = kept.iter().map(|c| (c.name.clone(), c.latest_commit_id.clone())).collect();
    assert_eq!(got, vec![("z".to_string(), "9".to_string()), ("b".to_string(), "c2".to_string()), ("b".to_string(), "c1".to_string())]);
    assert_eq!(kept[2].owner, "q");
}

#[test]
fn superseded_commit_is_rebuilt() {
    let mut store = StateStore::new();
    store.record_success(&"a".to_string(), &"b".to_string(), &"c1".to_string());
    let mut orch = Orchestrator::new(store);
    orch.begin_cycle(Ok(vec![cand("a", "b", "c2")]));
    let c = orch.take_next().unwrap();
    assert_eq!(c.latest_commit_id, "c2");
    orch.finish(&PipelineOutcome::Success);
    assert_eq!(orch.store().stored(&"a".to_string(), &"b".to_string()).cloned(), Some("c2".to_string()));
}
