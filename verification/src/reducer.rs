//! The state reducer: the single-threaded control loop that owns the
//! registry. It consumes one message at a time, in arrival order, applies
//! it synchronously, and hands back the dispatch commands it decided on;
//! the surrounding program performs them and feeds the results back as
//! later messages. No other component mutates the registry.

use vstd::prelude::*;
use vstd::string::StrSliceExecFns;

use crate::dispatcher::{dispatch_new, dispatch_views, ingest_spec, Dispatch};
use crate::entry::{AnalysisError, EntryMsg, EntryMsgView, Outcome};
use crate::registry::{deliver_spec, has_path, Registry, RegistryView};
use crate::resolver::{expand, is_video_spec, path_views};

verus! {

/// The active scene. The only transition is `Index` to `FileIndex`,
/// guarded by the credential length; there is no way back.
#[derive(Debug, Clone, Copy, PartialEq, Eq, Structural)]
pub enum Scene {
    Index,
    FileIndex,
}

/// A message consumed by the reducer.
#[derive(Debug)]
pub enum Message {
    /// A filesystem path (file or directory tree) was dropped by the user.
    PathDropped(String),
    /// Whether a drag operation is currently over the application surface.
    HoverChanged(bool),
    /// The credential text field changed to this value.
    CredentialChanged(String),
    /// The analysis task launched for this id finished with this result.
    AnalysisCompleted(u64, Result<Outcome, AnalysisError>),
    /// A message addressed to the entry carrying this id.
    EntrySubMessage(u64, EntryMsg),
    /// The user asked to advance from the index scene.
    SceneAdvanceRequested,
}

/// Mathematical model of the reducer state.
#[verifier::ext_equal]
pub struct AppView {
    pub registry: RegistryView,
    pub hovering: bool,
    pub scene: Scene,
    pub credential: Seq<char>,
}

/// The scene-advance guard: the credential must be longer than five
/// characters.
pub open spec fn guard_holds(credential: Seq<char>) -> bool {
    credential.len() > 5
}

/// The entry-level message a completion result stands for.
pub open spec fn completion_view(r: Result<Outcome, AnalysisError>) -> EntryMsgView {
    match r {
        Ok(o) => EntryMsgView::Done(o@),
        Err(e) => EntryMsgView::Failed(e@),
    }
}

/// The scene after a scene-advance request: `FileIndex` is never left,
/// and `Index` is left exactly when the guard holds.
pub open spec fn scene_after_advance(scene: Scene, credential: Seq<char>) -> Scene {
    if scene == Scene::FileIndex || guard_holds(credential) {
        Scene::FileIndex
    } else {
        Scene::Index
    }
}

/// The reducer state: the registry it exclusively owns, the transient
/// hover flag, the active scene, and the current credential text.
#[derive(Debug)]
pub struct App {
    registry: Registry,
    hovering: bool,
    scene: Scene,
    credential: String,
}

impl View for App {
    type V = AppView;

    closed spec fn view(&self) -> AppView {
        AppView {
            registry: self.registry@,
            hovering: self.hovering,
            scene: self.scene,
            credential: self.credential@,
        }
    }
}

impl App {
    /// A fresh reducer: empty registry, no hover, the index scene, and an
    /// empty credential.
    pub fn new() -> (r: App)
        ensures
            r@.registry.entries.len() == 0,
            r@.registry.next_id == 0,
            r@.registry.wf(),
            r@.hovering == false,
            r@.scene == Scene::Index,
            r@.credential.len() == 0,
    {
        App {
            registry: Registry::new(),
            hovering: false,
            scene: Scene::Index,
            credential: String::new(),
        }
    }

    /// Pure query: is `path` already tracked? No side effect.
    pub fn contains_path(&self, path: &String) -> (r: bool)
        ensures
            r == has_path(self@.registry.entries, path@),
    {
        self.registry.contains(path)
    }

    /// Read access to the registry, for rendering a snapshot of the
    /// tracked entries.
    pub fn registry(&self) -> (r: &Registry)
        ensures
            r@ == self@.registry,
    {
        &self.registry
    }

    /// The active scene, for the presentation layer to choose what to
    /// draw.
    pub fn scene(&self) -> (s: Scene)
        ensures
            s == self@.scene,
    {
        self.scene
    }

    /// The transient hover flag.
    pub fn hovering(&self) -> (h: bool)
        ensures
            h == self@.hovering,
    {
        self.hovering
    }

    /// Ingests an already expanded batch of candidate paths: every
    /// candidate not yet tracked becomes a fresh `Analyzing` entry with
    /// exactly one dispatch command; a duplicate is skipped without
    /// consuming an id. Nothing else of the reducer state changes.
    pub fn ingest_candidates(&mut self, cands: &Vec<String>) -> (cmds: Vec<Dispatch>)
        requires
            old(self)@.registry.wf(),
        ensures
            final(self)@.registry.wf(),
            final(self)@ == (AppView {
                registry: ingest_spec(old(self)@.registry, path_views(cands@)).0,
                ..old(self)@
            }),
            dispatch_views(cmds@) == ingest_spec(old(self)@.registry, path_views(cands@)).1,
    {
        dispatch_new(&mut self.registry, cands)
    }

    /// Expands one dropped path into candidate videos and ingests them:
    /// every candidate not already tracked becomes a fresh `Analyzing`
    /// entry with exactly one dispatch command; duplicates are skipped
    /// without consuming an id. Existing entries are never touched, and
    /// everything that gets appended is a video.
    pub fn add_path(&mut self, path: String) -> (cmds: Vec<Dispatch>)
        requires
            old(self)@.registry.wf(),
        ensures
            final(self)@.registry.wf(),
            final(self)@.hovering == old(self)@.hovering,
            final(self)@.scene == old(self)@.scene,
            final(self)@.credential == old(self)@.credential,
            exists|cs: Seq<Seq<char>>|
                {
                    &&& (forall|k: int| 0 <= k < cs.len() ==> is_video_spec(#[trigger] cs[k]))
                    &&& final(self)@.registry == ingest_spec(old(self)@.registry, cs).0
                    &&& dispatch_views(cmds@) == ingest_spec(old(self)@.registry, cs).1
                },
            old(self)@.registry.entries.len() <= final(self)@.registry.entries.len(),
            forall|j: int|
                0 <= j < old(self)@.registry.entries.len()
                    ==> #[trigger] final(self)@.registry.entries[j]
                    == old(self)@.registry.entries[j],
            final(self)@.registry.next_id >= old(self)@.registry.next_id,
            forall|j: int|
                old(self)@.registry.entries.len() <= j < final(self)@.registry.entries.len()
                    ==> {
                    &&& is_video_spec((#[trigger] final(self)@.registry.entries[j]).path)
                    &&& final(self)@.registry.entries[j].status is Analyzing
                    &&& final(self)@.registry.entries[j].id >= old(self)@.registry.next_id
                },
    {
        let cands = expand(&path);
        let cmds = dispatch_new(&mut self.registry, &cands);
        proof {
            let cs = path_views(cands@);
            assert(forall|k: int| 0 <= k < cs.len() ==> is_video_spec(#[trigger] cs[k])) by {
                assert(forall|k: int| 0 <= k < cands@.len()
                    ==> #[trigger] cs[k] == cands@[k]@);
            }
            crate::laws::lemma_ingest_extends(old(self)@.registry, cs);
            let r = ingest_spec(old(self)@.registry, cs).0;
            assert forall|j: int|
                old(self)@.registry.entries.len() <= j < r.entries.len() implies is_video_spec(
                (#[trigger] r.entries[j]).path,
            ) by {
                assert(cs.contains(r.entries[j].path));
                let k = choose|k: int| 0 <= k < cs.len() && cs[k] == r.entries[j].path;
                assert(is_video_spec(cs[k]));
            }
        }
        cmds
    }

    /// Applies one message and returns the dispatch commands it decided
    /// on. Only a dropped path can create entries and dispatches; a
    /// completion or sub-message reaches exactly the entry it is
    /// addressed to; hover and credential events touch nothing but their
    /// own field; a scene-advance request moves `Index` to `FileIndex`
    /// exactly when the guard holds and is otherwise a no-op.
    pub fn update(&mut self, msg: Message) -> (cmds: Vec<Dispatch>)
        requires
            old(self)@.registry.wf(),
        ensures
            final(self)@.registry.wf(),
            (msg matches Message::PathDropped(p) ==> {
                &&& final(self)@.hovering == false
                &&& final(self)@.scene == old(self)@.scene
                &&& final(self)@.credential == old(self)@.credential
                &&& exists|cs: Seq<Seq<char>>|
                    {
                        &&& (forall|k: int|
                            0 <= k < cs.len() ==> is_video_spec(#[trigger] cs[k]))
                        &&& final(self)@.registry == ingest_spec(old(self)@.registry, cs).0
                        &&& dispatch_views(cmds@) == ingest_spec(old(self)@.registry, cs).1
                    }
                &&& forall|j: int|
                    0 <= j < old(self)@.registry.entries.len()
                        ==> #[trigger] final(self)@.registry.entries[j]
                        == old(self)@.registry.entries[j]
                &&& forall|j: int|
                    old(self)@.registry.entries.len() <= j
                        < final(self)@.registry.entries.len() ==> {
                        &&& is_video_spec((#[trigger] final(self)@.registry.entries[j]).path)
                        &&& final(self)@.registry.entries[j].status is Analyzing
                    }
            }),
            (msg matches Message::HoverChanged(h) ==> final(self)@ == (AppView {
                hovering: h,
                ..old(self)@
            }) && cmds@.len() == 0),
            (msg matches Message::CredentialChanged(c) ==> final(self)@ == (AppView {
                credential: c@,
                ..old(self)@
            }) && cmds@.len() == 0),
            (msg matches Message::AnalysisCompleted(id, r) ==> final(self)@ == (AppView {
                registry: deliver_spec(old(self)@.registry, id, completion_view(r)),
                ..old(self)@
            }) && cmds@.len() == 0),
            (msg matches Message::EntrySubMessage(id, m) ==> final(self)@ == (AppView {
                registry: deliver_spec(old(self)@.registry, id, m@),
                ..old(self)@
            }) && cmds@.len() == 0),
            (msg matches Message::SceneAdvanceRequested ==> final(self)@ == (AppView {
                scene: scene_after_advance(old(self)@.scene, old(self)@.credential),
                ..old(self)@
            }) && cmds@.len() == 0),
    {
        match msg {
            Message::PathDropped(p) => {
                self.hovering = false;
                self.add_path(p)
            },
            Message::HoverChanged(h) => {
                self.hovering = h;
                Vec::new()
            },
            Message::CredentialChanged(c) => {
                self.credential = c;
                Vec::new()
            },
            Message::AnalysisCompleted(id, r) => {
                let m = match r {
                    Ok(o) => EntryMsg::AnalysisDone(o),
                    Err(e) => EntryMsg::AnalysisFailed(e),
                };
                let _delivered = self.registry.deliver(id, m);
                Vec::new()
            },
            Message::EntrySubMessage(id, m) => {
                let _delivered = self.registry.deliver(id, m);
                Vec::new()
            },
            Message::SceneAdvanceRequested => {
                if self.credential.as_str().unicode_len() > 5 {
                    self.scene = Scene::FileIndex;
                }
                Vec::new()
            },
        }
    }
}

} // verus!
