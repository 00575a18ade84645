//! The per-file data model: one tracked media file, its analysis status,
//! and the entry-level state machine that applies status messages.

use vstd::prelude::*;

verus! {

/// Opaque payload produced by a successful analysis run. The pipeline
/// attaches it to an entry without interpreting its contents.
#[derive(Debug, Clone, PartialEq, Eq)]
pub struct Outcome {
    pub payload: String,
}

impl View for Outcome {
    type V = Seq<char>;

    open spec fn view(&self) -> Seq<char> {
        self.payload@
    }
}

/// Opaque description of a failed analysis run, recorded on the entry
/// it belongs to and never interpreted by the pipeline.
#[derive(Debug, Clone, PartialEq, Eq)]
pub struct AnalysisError {
    pub message: String,
}

impl View for AnalysisError {
    type V = Seq<char>;

    open spec fn view(&self) -> Seq<char> {
        self.message@
    }
}

/// Analysis status of one tracked file. Transitions only move forward:
/// `Pending` to `Analyzing` to either `Analyzed` or `Failed`.
#[derive(Debug, Clone, PartialEq, Eq)]
pub enum FileStatus {
    Pending,
    Analyzing,
    Analyzed(Outcome),
    Failed(AnalysisError),
}

/// Mathematical model of a `FileStatus`: payloads abstracted to their text.
#[verifier::ext_equal]
pub enum StatusView {
    Pending,
    Analyzing,
    Analyzed(Seq<char>),
    Failed(Seq<char>),
}

impl View for FileStatus {
    type V = StatusView;

    open spec fn view(&self) -> StatusView {
        match self {
            FileStatus::Pending => StatusView::Pending,
            FileStatus::Analyzing => StatusView::Analyzing,
            FileStatus::Analyzed(o) => StatusView::Analyzed(o@),
            FileStatus::Failed(e) => StatusView::Failed(e@),
        }
    }
}

/// A message addressed to a single entry's state machine.
#[derive(Debug, Clone, PartialEq, Eq)]
pub enum EntryMsg {
    AnalysisStarted,
    AnalysisDone(Outcome),
    AnalysisFailed(AnalysisError),
}

/// Mathematical model of an `EntryMsg`.
#[verifier::ext_equal]
pub enum EntryMsgView {
    Started,
    Done(Seq<char>),
    Failed(Seq<char>),
}

impl View for EntryMsg {
    type V = EntryMsgView;

    open spec fn view(&self) -> EntryMsgView {
        match self {
            EntryMsg::AnalysisStarted => EntryMsgView::Started,
            EntryMsg::AnalysisDone(o) => EntryMsgView::Done(o@),
            EntryMsg::AnalysisFailed(e) => EntryMsgView::Failed(e@),
        }
    }
}

/// The entry state machine: `Some(next)` if the message is a legal forward
/// transition from `s`, `None` if it must be rejected. An entry that has
/// reached `Analyzed` or `Failed` is terminal and accepts nothing.
pub open spec fn entry_step(s: StatusView, m: EntryMsgView) -> Option<StatusView> {
    match m {
        EntryMsgView::Started => {
            if s is Pending {
                Some(StatusView::Analyzing)
            } else {
                None
            }
        },
        EntryMsgView::Done(o) => {
            if s is Pending || s is Analyzing {
                Some(StatusView::Analyzed(o))
            } else {
                None
            }
        },
        EntryMsgView::Failed(e) => {
            if s is Pending || s is Analyzing {
                Some(StatusView::Failed(e))
            } else {
                None
            }
        },
    }
}

/// One tracked media file: a stable identifier, the path it was discovered
/// under (immutable after creation), and its analysis status.
#[derive(Debug, Clone, PartialEq, Eq)]
pub struct FileEntry {
    pub id: u64,
    pub path: String,
    pub status: FileStatus,
}

/// Mathematical model of a `FileEntry`.
#[verifier::ext_equal]
pub struct EntryView {
    pub id: u64,
    pub path: Seq<char>,
    pub status: StatusView,
}

impl View for FileEntry {
    type V = EntryView;

    open spec fn view(&self) -> EntryView {
        EntryView { id: self.id, path: self.path@, status: self.status@ }
    }
}

impl FileEntry {
    /// Applies one entry-level message. Only the transitions that
    /// `entry_step` allows are taken; an illegal message is rejected and
    /// leaves the entry untouched. Id and path never change.
    pub fn apply(&mut self, m: EntryMsg) -> (accepted: bool)
        ensures
            accepted == (entry_step(old(self)@.status, m@) is Some),
            final(self)@ == (EntryView {
                status: match entry_step(old(self)@.status, m@) {
                    Some(s) => s,
                    None => old(self)@.status,
                },
                ..old(self)@
            }),
    {
        match m {
            EntryMsg::AnalysisStarted => {
                if matches!(self.status, FileStatus::Pending) {
                    self.status = FileStatus::Analyzing;
                    true
                } else {
                    false
                }
            },
            EntryMsg::AnalysisDone(o) => {
                if matches!(self.status, FileStatus::Pending | FileStatus::Analyzing) {
                    self.status = FileStatus::Analyzed(o);
                    true
                } else {
                    false
                }
            },
            EntryMsg::AnalysisFailed(e) => {
                if matches!(self.status, FileStatus::Pending | FileStatus::Analyzing) {
                    self.status = FileStatus::Failed(e);
                    true
                } else {
                    false
                }
            },
        }
    }
}

} // verus!
