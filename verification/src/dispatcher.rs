//! The analysis dispatcher: feeds candidate paths through the registry
//! and produces one dispatch command per entry that was actually created.
//! Exactly one command is ever produced per id, at the moment the entry
//! is created; re-offering an already tracked path produces none. The
//! caller launches one independent analysis task per command and feeds
//! each task's result back as a completion message.

use vstd::prelude::*;

use crate::entry::{EntryMsg, EntryMsgView, StatusView};
use crate::registry::{add_spec, deliver_spec, has_path, Registry, RegistryView};
use crate::resolver::path_views;

verus! {

/// An instruction to launch one analysis task: the freshly allocated id
/// and the path the task shall inspect.
#[derive(Debug, Clone, PartialEq, Eq)]
pub struct Dispatch {
    pub id: u64,
    pub path: String,
}

/// Mathematical model of a `Dispatch`.
#[verifier::ext_equal]
pub struct DispatchView {
    pub id: u64,
    pub path: Seq<char>,
}

impl View for Dispatch {
    type V = DispatchView;

    open spec fn view(&self) -> DispatchView {
        DispatchView { id: self.id, path: self.path@ }
    }
}

/// The views of a sequence of dispatch commands.
pub open spec fn dispatch_views(s: Seq<Dispatch>) -> Seq<DispatchView> {
    s.map_values(|d: Dispatch| d@)
}

/// What ingesting a single candidate does: an already tracked path, or an
/// exhausted id counter, changes nothing and dispatches nothing; any other
/// path is added as a fresh `Analyzing` entry and dispatched once.
pub open spec fn ingest_one_spec(v: RegistryView, p: Seq<char>) -> (RegistryView, Seq<
    DispatchView,
>) {
    if has_path(v.entries, p) || v.next_id == u64::MAX {
        (v, Seq::empty())
    } else {
        let v1 = add_spec(v, p).0;
        let v2 = deliver_spec(v1, v.next_id, EntryMsgView::Started);
        (v2, seq![DispatchView { id: v.next_id, path: p }])
    }
}

/// What ingesting a batch of candidates does: each candidate is ingested
/// in order against the registry state the previous ones left behind, and
/// the dispatch commands are concatenated in that order.
pub open spec fn ingest_spec(v: RegistryView, cands: Seq<Seq<char>>) -> (RegistryView, Seq<
    DispatchView,
>)
    decreases cands.len(),
{
    if cands.len() == 0 {
        (v, Seq::empty())
    } else {
        let head = ingest_one_spec(v, cands.first());
        let rest = ingest_spec(head.0, cands.drop_first());
        (rest.0, head.1 + rest.1)
    }
}

/// Feeds every candidate through `Registry::add` in order. Each path not
/// already tracked gets a fresh entry, immediately marked `Analyzing`,
/// and exactly one dispatch command; a duplicate (within the batch or
/// against older entries) is skipped without consuming an id.
pub fn dispatch_new(reg: &mut Registry, cands: &Vec<String>) -> (cmds: Vec<Dispatch>)
    requires
        old(reg)@.wf(),
    ensures
        final(reg)@.wf(),
        final(reg)@ == ingest_spec(old(reg)@, path_views(cands@)).0,
        dispatch_views(cmds@) == ingest_spec(old(reg)@, path_views(cands@)).1,
{
    let ghost pv = path_views(cands@);
    let ghost full = ingest_spec(old(reg)@, pv);
    let mut cmds: Vec<Dispatch> = Vec::new();
    proof {
        assert(pv.skip(0) =~= pv);
        assert(dispatch_views(cmds@) =~= Seq::<DispatchView>::empty());
        assert(Seq::<DispatchView>::empty() + ingest_spec(reg@, pv).1 =~= ingest_spec(reg@, pv).1);
    }
    let n = cands.len();
    let mut i: usize = 0;
    while i < n
        invariant
            n == cands@.len(),
            i <= n,
            pv == path_views(cands@),
            full == ingest_spec(old(reg)@, pv),
            reg@.wf(),
            ingest_spec(reg@, pv.skip(i as int)).0 == full.0,
            dispatch_views(cmds@) + ingest_spec(reg@, pv.skip(i as int)).1 == full.1,
        decreases n - i,
    {
        let ghost pre = reg@;
        let ghost remaining = pv.skip(i as int);
        let ghost dv_pre = dispatch_views(cmds@);
        proof {
            assert(remaining.first() == pv[i as int]);
            assert(remaining.drop_first() =~= pv.skip(i + 1));
            assert(pv[i as int] == cands@[i as int]@);
        }
        let p = &cands[i];
        if reg.next_id() < u64::MAX && !reg.contains(p) {
            let (id, _was_new) = reg.add(p.clone());
            let _started = reg.deliver(id, EntryMsg::AnalysisStarted);
            cmds.push(Dispatch { id, path: p.clone() });
            proof {
                assert(reg@ == ingest_one_spec(pre, pv[i as int]).0);
                assert(dispatch_views(cmds@) =~= dv_pre + ingest_one_spec(pre, pv[i as int]).1);
            }
        } else {
            proof {
                assert(ingest_one_spec(pre, pv[i as int]).0 == pre);
                assert(dispatch_views(cmds@) =~= dv_pre + ingest_one_spec(pre, pv[i as int]).1);
            }
        }
        proof {
            let one = ingest_one_spec(pre, pv[i as int]);
            let rest1 = ingest_spec(reg@, pv.skip(i + 1)).1;
            assert(ingest_spec(pre, remaining).0 == ingest_spec(one.0, pv.skip(i + 1)).0);
            assert(ingest_spec(pre, remaining).1 == one.1 + ingest_spec(one.0, pv.skip(i + 1)).1);
            assert((dv_pre + one.1) + rest1 =~= dv_pre + (one.1 + rest1));
        }
        i += 1;
    }
    proof {
        assert(pv.skip(n as int) =~= Seq::<Seq<char>>::empty());
        assert(dispatch_views(cmds@) + Seq::<DispatchView>::empty() =~= dispatch_views(cmds@));
    }
    cmds
}

} // verus!
