use media_ingest::resolver::{expand, filter_videos, is_video};

#[test]
fn mp4_is_a_video() {
    assert!(is_video(&String::from("clip.mp4")));
}

#[test]
fn mkv_is_a_video() {
    assert!(is_video(&String::from("movie.mkv")));
}

#[test]
fn txt_is_not_a_video() {
    assert!(!is_video(&String::from("notes.txt")));
}

#[test]
fn audio_extension_is_not_a_video() {
    assert!(!is_video(&String::from("song.mp3")));
}

#[test]
fn no_extension_gives_no_guess() {
    assert!(!is_video(&String::from("README")));
}

#[test]
fn filter_keeps_exactly_the_videos_in_order() {
    let cands = vec![
        String::from("a.mp4"),
        String::from("b.txt"),
        String::from("c.mkv"),
    ];
    let vids = filter_videos(&cands);
    assert_eq!(vids, vec![String::from("a.mp4"), String::from("c.mkv")]);
}

#[test]
fn filter_of_no_candidates_is_empty() {
    let vids = filter_videos(&Vec::new());
    assert!(vids.is_empty());
}

#[test]
fn expand_of_a_missing_path_yields_nothing() {
    let r = expand(&String::from("/no/such/path/anywhere.mp4"));
    assert!(r.is_empty());
}
