use media_ingest::entry::{AnalysisError, EntryMsg, FileStatus, Outcome};
use media_ingest::reducer::{App, Message, Scene};
use media_ingest::resolver::filter_videos;

fn outcome(s: &str) -> Outcome {
    Outcome { payload: String::from(s) }
}

fn app_with_two_files() -> App {
    let mut app = App::new();
    let cands = vec![String::from("a.mp4"), String::from("c.mkv")];
    let cmds = app.ingest_candidates(&cands);
    assert_eq!(cmds.len(), 2);
    app
}

#[test]
fn a_new_app_is_empty_and_on_the_index_scene() {
    let app = App::new();
    assert_eq!(app.registry().len(), 0);
    assert_eq!(app.scene(), Scene::Index);
    assert!(!app.hovering());
}

#[test]
fn ingestion_filters_by_type() {
    let mut app = App::new();
    let dropped = vec![
        String::from("a.mp4"),
        String::from("b.txt"),
        String::from("c.mkv"),
    ];
    let cands = filter_videos(&dropped);
    let cmds = app.ingest_candidates(&cands);
    assert_eq!(app.registry().len(), 2);
    assert_eq!(app.registry().get(0).path, "a.mp4");
    assert_eq!(app.registry().get(1).path, "c.mkv");
    assert!(!app.contains_path(&String::from("b.txt")));
    assert_eq!(cmds.len(), 2);
    assert_eq!(cmds[0].id, 0);
    assert_eq!(cmds[0].path, "a.mp4");
    assert_eq!(cmds[1].id, 1);
    assert_eq!(cmds[1].path, "c.mkv");
}

#[test]
fn overlapping_drops_keep_one_entry_per_path() {
    let mut app = App::new();
    let first = vec![String::from("a.mp4"), String::from("c.mkv")];
    let second = vec![String::from("c.mkv"), String::from("d.mp4")];
    let first_cmds = app.ingest_candidates(&first);
    let second_cmds = app.ingest_candidates(&second);
    assert_eq!(first_cmds.len(), 2);
    assert_eq!(second_cmds.len(), 1);
    assert_eq!(second_cmds[0].id, 2);
    assert_eq!(second_cmds[0].path, "d.mp4");
    assert_eq!(app.registry().len(), 3);
    assert_eq!(app.registry().next_id(), 3);
}

#[test]
fn redropping_the_same_batch_changes_nothing() {
    let mut app = App::new();
    let cands = vec![String::from("a.mp4"), String::from("a.mp4")];
    let cmds = app.ingest_candidates(&cands);
    assert_eq!(cmds.len(), 1);
    let again = app.ingest_candidates(&cands);
    assert!(again.is_empty());
    assert_eq!(app.registry().len(), 1);
    assert_eq!(app.registry().next_id(), 1);
}

#[test]
fn new_entries_are_dispatched_as_analyzing() {
    let app = app_with_two_files();
    assert!(matches!(app.registry().get(0).status, FileStatus::Analyzing));
    assert!(matches!(app.registry().get(1).status, FileStatus::Analyzing));
}

#[test]
fn completion_targets_exactly_its_id() {
    let mut app = app_with_two_files();
    let cmds = app.update(Message::AnalysisCompleted(0, Ok(outcome("meta-a"))));
    assert!(cmds.is_empty());
    assert_eq!(app.registry().get(0).status, FileStatus::Analyzed(outcome("meta-a")));
    assert!(matches!(app.registry().get(1).status, FileStatus::Analyzing));
}

#[test]
fn completion_for_a_stale_id_is_discarded() {
    let mut app = app_with_two_files();
    let cmds = app.update(Message::AnalysisCompleted(7, Ok(outcome("meta"))));
    assert!(cmds.is_empty());
    assert_eq!(app.registry().len(), 2);
    assert!(matches!(app.registry().get(0).status, FileStatus::Analyzing));
    assert!(matches!(app.registry().get(1).status, FileStatus::Analyzing));
}

#[test]
fn failed_completion_is_recorded_on_its_entry() {
    let mut app = app_with_two_files();
    app.update(Message::AnalysisCompleted(
        1,
        Err(AnalysisError { message: String::from("unreadable") }),
    ));
    assert_eq!(
        app.registry().get(1).status,
        FileStatus::Failed(AnalysisError { message: String::from("unreadable") })
    );
    assert!(matches!(app.registry().get(0).status, FileStatus::Analyzing));
}

#[test]
fn completions_in_either_order_agree() {
    let mut one = app_with_two_files();
    one.update(Message::AnalysisCompleted(0, Ok(outcome("meta-a"))));
    one.update(Message::AnalysisCompleted(1, Ok(outcome("meta-c"))));
    let mut two = app_with_two_files();
    two.update(Message::AnalysisCompleted(1, Ok(outcome("meta-c"))));
    two.update(Message::AnalysisCompleted(0, Ok(outcome("meta-a"))));
    assert_eq!(one.registry().len(), two.registry().len());
    for i in 0..one.registry().len() {
        assert_eq!(one.registry().get(i), two.registry().get(i));
    }
}

#[test]
fn entry_sub_messages_reach_their_entry() {
    let mut app = app_with_two_files();
    app.update(Message::EntrySubMessage(1, EntryMsg::AnalysisDone(outcome("via-sub"))));
    assert_eq!(app.registry().get(1).status, FileStatus::Analyzed(outcome("via-sub")));
    app.update(Message::EntrySubMessage(9, EntryMsg::AnalysisDone(outcome("nowhere"))));
    assert_eq!(app.registry().len(), 2);
}

#[test]
fn hover_events_only_touch_the_flag() {
    let mut app = App::new();
    app.update(Message::HoverChanged(true));
    assert!(app.hovering());
    assert_eq!(app.registry().len(), 0);
    app.update(Message::HoverChanged(false));
    assert!(!app.hovering());
}

#[test]
fn dropping_a_missing_path_ingests_nothing() {
    let mut app = App::new();
    app.update(Message::HoverChanged(true));
    let cmds = app.update(Message::PathDropped(String::from("/no/such/dir")));
    assert!(cmds.is_empty());
    assert_eq!(app.registry().len(), 0);
    assert!(!app.hovering());
}

#[test]
fn a_five_character_credential_does_not_advance_the_scene() {
    let mut app = App::new();
    app.update(Message::CredentialChanged(String::from("abcde")));
    app.update(Message::SceneAdvanceRequested);
    assert_eq!(app.scene(), Scene::Index);
}

#[test]
fn a_six_character_credential_advances_the_scene() {
    let mut app = App::new();
    app.update(Message::CredentialChanged(String::from("abcdef")));
    app.update(Message::SceneAdvanceRequested);
    assert_eq!(app.scene(), Scene::FileIndex);
}

#[test]
fn the_scene_transition_is_one_way() {
    let mut app = App::new();
    app.update(Message::CredentialChanged(String::from("abcdef")));
    app.update(Message::SceneAdvanceRequested);
    app.update(Message::CredentialChanged(String::from("ab")));
    app.update(Message::SceneAdvanceRequested);
    assert_eq!(app.scene(), Scene::FileIndex);
}
