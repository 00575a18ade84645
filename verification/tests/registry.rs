use media_ingest::entry::{AnalysisError, EntryMsg, FileStatus, Outcome};
use media_ingest::registry::Registry;

fn outcome(s: &str) -> Outcome {
    Outcome { payload: String::from(s) }
}

fn failure(s: &str) -> AnalysisError {
    AnalysisError { message: String::from(s) }
}

#[test]
fn adding_a_new_path_allocates_the_next_id() {
    let mut reg = Registry::new();
    let (id, was_new) = reg.add(String::from("a.mp4"));
    assert_eq!(id, 0);
    assert!(was_new);
    assert_eq!(reg.len(), 1);
    assert_eq!(reg.get(0).path, "a.mp4");
    assert!(matches!(reg.get(0).status, FileStatus::Pending));
}

#[test]
fn adding_the_same_path_twice_keeps_one_entry() {
    let mut reg = Registry::new();
    let (first_id, first_new) = reg.add(String::from("a.mp4"));
    let (second_id, second_new) = reg.add(String::from("a.mp4"));
    assert!(first_new);
    assert!(!second_new);
    assert_eq!(first_id, second_id);
    assert_eq!(reg.len(), 1);
    assert_eq!(reg.next_id(), 1);
}

#[test]
fn duplicates_consume_no_id() {
    let mut reg = Registry::new();
    assert_eq!(reg.add(String::from("a.mp4")), (0, true));
    assert_eq!(reg.add(String::from("a.mp4")), (0, false));
    assert_eq!(reg.add(String::from("b.mkv")), (1, true));
    assert_eq!(reg.add(String::from("a.mp4")), (0, false));
    assert_eq!(reg.add(String::from("c.mp4")), (2, true));
    assert_eq!(reg.next_id(), 3);
    assert_eq!(reg.len(), 3);
    assert!(reg.get(0).id < reg.get(1).id);
    assert!(reg.get(1).id < reg.get(2).id);
}

#[test]
fn contains_is_a_pure_query() {
    let mut reg = Registry::new();
    reg.add(String::from("a.mp4"));
    assert!(reg.contains(&String::from("a.mp4")));
    assert!(!reg.contains(&String::from("b.mp4")));
    assert_eq!(reg.len(), 1);
    assert_eq!(reg.next_id(), 1);
}

#[test]
fn completion_updates_only_its_entry() {
    let mut reg = Registry::new();
    reg.add(String::from("a.mp4"));
    reg.add(String::from("b.mkv"));
    let delivered = reg.deliver(0, EntryMsg::AnalysisDone(outcome("meta-a")));
    assert!(delivered);
    assert_eq!(reg.get(0).status, FileStatus::Analyzed(outcome("meta-a")));
    assert!(matches!(reg.get(1).status, FileStatus::Pending));
    assert_eq!(reg.get(1).path, "b.mkv");
}

#[test]
fn completion_for_an_unknown_id_is_a_no_op() {
    let mut reg = Registry::new();
    reg.add(String::from("a.mp4"));
    let before = (reg.len(), reg.next_id(), reg.get(0).clone());
    let delivered = reg.deliver(99, EntryMsg::AnalysisDone(outcome("meta")));
    assert!(!delivered);
    assert_eq!(reg.len(), before.0);
    assert_eq!(reg.next_id(), before.1);
    assert_eq!(*reg.get(0), before.2);
}

#[test]
fn a_failed_analysis_is_recorded_as_terminal_failure() {
    let mut reg = Registry::new();
    reg.add(String::from("a.mp4"));
    assert!(reg.deliver(0, EntryMsg::AnalysisFailed(failure("probe died"))));
    assert_eq!(reg.get(0).status, FileStatus::Failed(failure("probe died")));
    assert!(!reg.deliver(0, EntryMsg::AnalysisDone(outcome("late"))));
    assert_eq!(reg.get(0).status, FileStatus::Failed(failure("probe died")));
}

#[test]
fn an_analyzed_entry_is_never_reanalyzed() {
    let mut reg = Registry::new();
    reg.add(String::from("a.mp4"));
    assert!(reg.deliver(0, EntryMsg::AnalysisStarted));
    assert!(matches!(reg.get(0).status, FileStatus::Analyzing));
    assert!(!reg.deliver(0, EntryMsg::AnalysisStarted));
    assert!(reg.deliver(0, EntryMsg::AnalysisDone(outcome("first"))));
    assert!(!reg.deliver(0, EntryMsg::AnalysisDone(outcome("second"))));
    assert_eq!(reg.get(0).status, FileStatus::Analyzed(outcome("first")));
}

#[test]
fn completions_commute_between_distinct_ids() {
    let build = || {
        let mut reg = Registry::new();
        reg.add(String::from("a.mp4"));
        reg.add(String::from("b.mkv"));
        reg
    };
    let mut one = build();
    one.deliver(0, EntryMsg::AnalysisDone(outcome("meta-a")));
    one.deliver(1, EntryMsg::AnalysisFailed(failure("bad-b")));
    let mut two = build();
    two.deliver(1, EntryMsg::AnalysisFailed(failure("bad-b")));
    two.deliver(0, EntryMsg::AnalysisDone(outcome("meta-a")));
    assert_eq!(one.len(), two.len());
    for i in 0..one.len() {
        assert_eq!(one.get(i), two.get(i));
    }
}
