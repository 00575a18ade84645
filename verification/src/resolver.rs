//! The path resolver: expands one dropped path into the candidate media
//! files below it. A dropped directory is walked recursively; a dropped
//! file stands for itself. Candidates are kept exactly when their sniffed
//! content type, a pure function of the path's extension, names a video.
//! A traversal error on one descendant skips that descendant and never
//! aborts the walk.

use vstd::prelude::*;

verus! {

/// The content type that extension-based sniffing guesses for a path, as
/// the bytes of the type's name (for example `video/mp4`), or `None` when
/// no guess exists. The guess is a pure function of the path alone.
pub uninterp spec fn mime_of(path: Seq<char>) -> Option<Seq<u8>>;

/// Relies on `mime_guess::from_path` and `MimeGuess::first_raw`: the
/// first guessed content type for a path, looked up by extension in a
/// static table, so the result depends on the path alone.
#[verifier::external_body]
fn guess_mime(path: &String) -> (r: Option<Vec<u8>>)
    ensures
        match r {
            Some(m) => mime_of(path@) == Some(m@),
            None => mime_of(path@) is None,
        },
{
    mime_guess::from_path(path.as_str()).first_raw().map(|name| name.as_bytes().to_vec())
}

/// A content-type name designates a video exactly when it starts with
/// the six bytes of `video/`.
pub open spec fn is_video_mime(m: Seq<u8>) -> bool {
    m.len() >= 6 && m[0] == 118 && m[1] == 105 && m[2] == 100 && m[3] == 101 && m[4] == 111
        && m[5] == 47
}

/// A path counts as a video exactly when sniffing yields a guess and that
/// guess names a video; absence of a guess means "not a video".
pub open spec fn is_video_spec(path: Seq<char>) -> bool {
    match mime_of(path) {
        Some(m) => is_video_mime(m),
        None => false,
    }
}

/// Decides whether `path` names a video file, by its sniffed content type.
pub fn is_video(path: &String) -> (r: bool)
    ensures
        r == is_video_spec(path@),
{
    match guess_mime(path) {
        None => false,
        Some(m) => m.len() >= 6 && m[0] == 118 && m[1] == 105 && m[2] == 100 && m[3] == 101
            && m[4] == 111 && m[5] == 47,
    }
}

/// The views of a sequence of owned paths.
pub open spec fn path_views(s: Seq<String>) -> Seq<Seq<char>> {
    s.map_values(|p: String| p@)
}

/// The subsequence of `s` whose elements are videos, in order.
pub open spec fn video_filter(s: Seq<Seq<char>>) -> Seq<Seq<char>>
    decreases s.len(),
{
    if s.len() == 0 {
        Seq::empty()
    } else {
        let rest = video_filter(s.drop_last());
        if is_video_spec(s.last()) {
            rest.push(s.last())
        } else {
            rest
        }
    }
}

/// Everything `video_filter` keeps is a video.
pub proof fn lemma_video_filter_all(s: Seq<Seq<char>>)
    ensures
        forall|i: int| 0 <= i < video_filter(s).len() ==> is_video_spec(video_filter(s)[i]),
    decreases s.len(),
{
    if s.len() > 0 {
        lemma_video_filter_all(s.drop_last());
        let rest = video_filter(s.drop_last());
        if is_video_spec(s.last()) {
            assert(video_filter(s) == rest.push(s.last()));
            assert forall|i: int| 0 <= i < video_filter(s).len() implies is_video_spec(
                video_filter(s)[i],
            ) by {
                if i < rest.len() {
                    assert(video_filter(s)[i] == rest[i]);
                } else {
                    assert(video_filter(s)[i] == s.last());
                }
            }
        } else {
            assert(video_filter(s) == rest);
        }
    }
}

/// Keeps exactly the candidate paths whose sniffed content type names a
/// video, in their original order.
pub fn filter_videos(paths: &Vec<String>) -> (r: Vec<String>)
    ensures
        path_views(r@) == video_filter(path_views(paths@)),
{
    let ghost pv = path_views(paths@);
    let mut r: Vec<String> = Vec::new();
    let n = paths.len();
    let mut i: usize = 0;
    while i < n
        invariant
            n == paths@.len(),
            i <= n,
            pv == path_views(paths@),
            path_views(r@) == video_filter(pv.take(i as int)),
        decreases n - i,
    {
        proof {
            assert(pv.take(i + 1).drop_last() =~= pv.take(i as int));
            assert(pv.take(i + 1).last() == pv[i as int]);
            assert(pv[i as int] == paths@[i as int]@);
        }
        if is_video(&paths[i]) {
            r.push(paths[i].clone());
            proof {
                assert(path_views(r@) =~= video_filter(pv.take(i + 1)));
            }
        } else {
            proof {
                assert(path_views(r@) =~= video_filter(pv.take(i + 1)));
            }
        }
        i += 1;
    }
    proof {
        assert(pv.take(n as int) =~= pv);
    }
    r
}

/// Relies on `walkdir::WalkDir`: visits the given path itself and, when
/// it is a directory, every descendant to unbounded depth. A descendant
/// that fails to resolve (permission denied, broken link) is skipped and
/// the walk continues. What comes back depends on the filesystem, so
/// nothing is promised of it; callers filter it through verified code.
#[verifier::external_body]
fn walk_paths(root: &String) -> (r: Vec<String>)
{
    let mut out = Vec::new();
    for entry in walkdir::WalkDir::new(root.as_str()) {
        if let Ok(e) = entry {
            out.push(e.path().to_string_lossy().into_owned());
        }
    }
    out
}

/// Expands one dropped path into candidate media files: the path itself
/// when it is a regular file, every descendant when it is a directory,
/// in each case kept exactly when its sniffed content type names a video.
/// Each call re-walks from scratch; traversal errors skip the offending
/// descendant only. Every returned path is a video.
pub fn expand(path: &String) -> (r: Vec<String>)
    ensures
        forall|i: int| 0 <= i < r@.len() ==> is_video_spec(#[trigger] r@[i]@),
{
    let walked = walk_paths(path);
    let vids = filter_videos(&walked);
    proof {
        lemma_video_filter_all(path_views(walked@));
        assert(forall|i: int| 0 <= i < vids@.len()
            ==> #[trigger] vids@[i]@ == path_views(vids@)[i]);
    }
    vids
}

} // verus!
