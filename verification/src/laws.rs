//! The pipeline's global laws, stated over the mathematical models and
//! proved once and for all: completions target exactly the entry they
//! are addressed to, completions for distinct ids commute, ingestion
//! extends the registry without disturbing it, and re-ingesting the same
//! candidates is a no-op.

use vstd::prelude::*;

use crate::dispatcher::{ingest_one_spec, ingest_spec, DispatchView};
use crate::entry::{entry_step, EntryMsgView, EntryView, StatusView};
use crate::registry::{
    add_spec, deliver_spec, has_id, has_path, ids_below, ids_increasing, idx_of_id,
    lemma_id_index_unique, paths_distinct, RegistryView,
};

verus! {

/// Completion targeting: delivering a message to id `id` preserves the
/// counter, the number of entries and every entry's id and path; every
/// entry whose id differs from `id` is left exactly as it was; and an id
/// absent from the registry changes nothing at all. Well-formedness is
/// preserved.
pub proof fn lemma_completion_targets(v: RegistryView, id: u64, m: EntryMsgView)
    requires
        v.wf(),
    ensures
        deliver_spec(v, id, m).wf(),
        deliver_spec(v, id, m).next_id == v.next_id,
        deliver_spec(v, id, m).entries.len() == v.entries.len(),
        forall|j: int| 0 <= j < v.entries.len() ==> {
            &&& (#[trigger] deliver_spec(v, id, m).entries[j]).id == v.entries[j].id
            &&& deliver_spec(v, id, m).entries[j].path == v.entries[j].path
        },
        forall|j: int|
            0 <= j < v.entries.len() && v.entries[j].id != id
                ==> #[trigger] deliver_spec(v, id, m).entries[j] == v.entries[j],
        !has_id(v.entries, id) ==> deliver_spec(v, id, m) == v,
{
    if has_id(v.entries, id) {
        let i = idx_of_id(v.entries, id);
        assert(0 <= i < v.entries.len() && v.entries[i].id == id);
        match entry_step(v.entries[i].status, m) {
            Some(s2) => {
                let w = deliver_spec(v, id, m);
                assert forall|j: int|
                    0 <= j < v.entries.len() && v.entries[j].id != id implies #[trigger] w
                    .entries[j] == v.entries[j] by {
                    assert(j != i);
                }
                assert(ids_increasing(w.entries));
                assert(paths_distinct(w.entries));
                assert(ids_below(w.entries, w.next_id));
            },
            None => {},
        }
    }
}

/// When two sequences of entries agree in length and pointwise on ids,
/// an id found in the first is found at the same position in the second.
pub proof fn lemma_id_position_stable(a: Seq<EntryView>, b: Seq<EntryView>, id: u64)
    requires
        ids_increasing(a),
        a.len() == b.len(),
        forall|j: int| 0 <= j < a.len() ==> (#[trigger] b[j]).id == a[j].id,
        has_id(a, id),
    ensures
        has_id(b, id),
        idx_of_id(b, id) == idx_of_id(a, id),
{
    let i = idx_of_id(a, id);
    assert(0 <= i < a.len() && a[i].id == id);
    assert(b[i].id == id);
    assert(has_id(b, id));
    let j = idx_of_id(b, id);
    assert(0 <= j < b.len() && b[j].id == id);
    assert(a[j].id == id);
    lemma_id_index_unique(a, i, j);
}

/// Order independence of completions: two messages addressed to distinct
/// ids produce the same registry whichever arrives first.
pub proof fn lemma_completions_commute(
    v: RegistryView,
    id1: u64,
    m1: EntryMsgView,
    id2: u64,
    m2: EntryMsgView,
)
    requires
        v.wf(),
        id1 != id2,
    ensures
        deliver_spec(deliver_spec(v, id1, m1), id2, m2) == deliver_spec(
            deliver_spec(v, id2, m2),
            id1,
            m1,
        ),
{
    lemma_completion_targets(v, id1, m1);
    lemma_completion_targets(v, id2, m2);
    let a = deliver_spec(v, id1, m1);
    let b = deliver_spec(v, id2, m2);
    lemma_completion_targets(a, id2, m2);
    lemma_completion_targets(b, id1, m1);
    let ab = deliver_spec(a, id2, m2);
    let ba = deliver_spec(b, id1, m1);
    if !has_id(v.entries, id1) && !has_id(v.entries, id2) {
        assert(ab == ba);
    } else if has_id(v.entries, id1) && !has_id(v.entries, id2) {
        assert(!has_id(a.entries, id2)) by {
            if has_id(a.entries, id2) {
                let j = idx_of_id(a.entries, id2);
                assert(v.entries[j].id == id2);
            }
        }
        assert(ab == a);
        assert(ba == deliver_spec(v, id1, m1));
    } else if !has_id(v.entries, id1) && has_id(v.entries, id2) {
        assert(!has_id(b.entries, id1)) by {
            if has_id(b.entries, id1) {
                let j = idx_of_id(b.entries, id1);
                assert(v.entries[j].id == id1);
            }
        }
        assert(ba == b);
        assert(ab == deliver_spec(v, id2, m2));
    } else {
        let i = idx_of_id(v.entries, id1);
        let j = idx_of_id(v.entries, id2);
        assert(v.entries[i].id == id1 && v.entries[j].id == id2);
        assert(i != j);
        lemma_id_position_stable(v.entries, a.entries, id2);
        lemma_id_position_stable(v.entries, b.entries, id1);
        assert(idx_of_id(a.entries, id2) == j);
        assert(idx_of_id(b.entries, id1) == i);
        assert(a.entries[j] == v.entries[j]);
        assert(b.entries[i] == v.entries[i]);
        let s1 = entry_step(v.entries[i].status, m1);
        let s2 = entry_step(v.entries[j].status, m2);
        match (s1, s2) {
            (Some(n1), Some(n2)) => {
                assert(ab.entries =~= ba.entries);
                assert(ab =~= ba);
            },
            (Some(n1), None) => {
                assert(ab == a);
                assert(ba.entries =~= a.entries);
                assert(ba =~= ab);
            },
            (None, Some(n2)) => {
                assert(ba == b);
                assert(ab.entries =~= b.entries);
                assert(ab =~= ba);
            },
            (None, None) => {
                assert(ab == v && ba == v);
            },
        }
    }
}

/// Ingesting a single candidate only ever appends: every existing entry
/// keeps its position and value, the counter never moves backwards, any
/// new entry carries a fresh id at least the old counter value, an
/// exhausted counter freezes the registry, and afterwards the candidate
/// is tracked unless the counter is exhausted.
pub proof fn lemma_ingest_one_extends(v: RegistryView, p: Seq<char>)
    requires
        v.wf(),
    ensures
        ingest_one_spec(v, p).0.wf(),
        v.entries.len() <= ingest_one_spec(v, p).0.entries.len(),
        forall|j: int|
            0 <= j < v.entries.len() ==> #[trigger] ingest_one_spec(v, p).0.entries[j]
                == v.entries[j],
        ingest_one_spec(v, p).0.next_id >= v.next_id,
        forall|j: int|
            v.entries.len() <= j < ingest_one_spec(v, p).0.entries.len()
                ==> (#[trigger] ingest_one_spec(v, p).0.entries[j]).id >= v.next_id,
        has_path(ingest_one_spec(v, p).0.entries, p) || ingest_one_spec(v, p).0.next_id
            == u64::MAX,
        v.next_id == u64::MAX ==> ingest_one_spec(v, p).0 == v,
        forall|q: Seq<char>| #[trigger]
            has_path(v.entries, q) ==> has_path(ingest_one_spec(v, p).0.entries, q),
        forall|j: int|
            v.entries.len() <= j < ingest_one_spec(v, p).0.entries.len() ==> {
                &&& (#[trigger] ingest_one_spec(v, p).0.entries[j]).status is Analyzing
                &&& ingest_one_spec(v, p).0.entries[j].path == p
            },
{
    if has_path(v.entries, p) || v.next_id == u64::MAX {
    } else {
        let e = EntryView { id: v.next_id, path: p, status: StatusView::Pending };
        let v1 = add_spec(v, p).0;
        assert(v1.entries == v.entries.push(e));
        assert(ids_increasing(v1.entries));
        assert(paths_distinct(v1.entries));
        assert(ids_below(v1.entries, v1.next_id));
        let newi = v.entries.len() as int;
        assert(has_id(v1.entries, v.next_id));
        lemma_id_index_unique(v1.entries, newi, idx_of_id(v1.entries, v.next_id));
        assert(entry_step(v1.entries[newi].status, EntryMsgView::Started)
            == Some(StatusView::Analyzing));
        lemma_completion_targets(v1, v.next_id, EntryMsgView::Started);
        let r = ingest_one_spec(v, p).0;
        assert(r.entries == v1.entries.update(
            newi,
            (EntryView { status: StatusView::Analyzing, ..e }),
        ));
        assert(r.entries[newi].path == p);
        assert(has_path(r.entries, p));
        assert forall|q: Seq<char>| #[trigger] has_path(v.entries, q) implies has_path(
            r.entries,
            q,
        ) by {
            let k = choose|k: int| 0 <= k < v.entries.len() && v.entries[k].path == q;
            assert(r.entries[k].path == q);
        }
    }
}

/// Ingesting a batch of candidates only ever appends: every existing
/// entry keeps its position and value, the counter never moves
/// backwards, every appended entry carries a fresh id at least the old
/// counter value, an exhausted counter freezes the registry, and
/// well-formedness is preserved — so ids stay strictly increasing and
/// paths stay distinct across any sequence of drops.
pub proof fn lemma_ingest_extends(v: RegistryView, cands: Seq<Seq<char>>)
    requires
        v.wf(),
    ensures
        ingest_spec(v, cands).0.wf(),
        v.entries.len() <= ingest_spec(v, cands).0.entries.len(),
        forall|j: int|
            0 <= j < v.entries.len() ==> #[trigger] ingest_spec(v, cands).0.entries[j]
                == v.entries[j],
        ingest_spec(v, cands).0.next_id >= v.next_id,
        forall|j: int|
            v.entries.len() <= j < ingest_spec(v, cands).0.entries.len()
                ==> (#[trigger] ingest_spec(v, cands).0.entries[j]).id >= v.next_id,
        v.next_id == u64::MAX ==> ingest_spec(v, cands).0 == v,
        forall|q: Seq<char>| #[trigger]
            has_path(v.entries, q) ==> has_path(ingest_spec(v, cands).0.entries, q),
        forall|j: int|
            v.entries.len() <= j < ingest_spec(v, cands).0.entries.len() ==> {
                &&& (#[trigger] ingest_spec(v, cands).0.entries[j]).status is Analyzing
                &&& cands.contains(ingest_spec(v, cands).0.entries[j].path)
            },
    decreases cands.len(),
{
    if cands.len() == 0 {
    } else {
        lemma_ingest_one_extends(v, cands.first());
        let v1 = ingest_one_spec(v, cands.first()).0;
        lemma_ingest_extends(v1, cands.drop_first());
        let r = ingest_spec(v, cands).0;
        assert forall|j: int| v.entries.len() <= j < r.entries.len() implies {
            &&& (#[trigger] r.entries[j]).status is Analyzing
            &&& cands.contains(r.entries[j].path)
        } by {
            if j < v1.entries.len() {
                assert(r.entries[j] == v1.entries[j]);
                assert(v1.entries[j].path == cands.first());
                assert(cands[0] == cands.first());
                assert(cands.contains(v1.entries[j].path));
            } else {
                assert(cands.drop_first().contains(r.entries[j].path));
                let k = choose|k: int|
                    0 <= k < cands.drop_first().len() && cands.drop_first()[k] == r.entries[j].path;
                assert(cands[k + 1] == r.entries[j].path);
                assert(cands.contains(r.entries[j].path));
            }
        }
    }
}

/// Every candidate of a batch is tracked once the batch is ingested,
/// unless the id counter ran out along the way.
pub proof fn lemma_ingest_covers(v: RegistryView, cands: Seq<Seq<char>>)
    requires
        v.wf(),
    ensures
        forall|k: int|
            0 <= k < cands.len() ==> has_path(ingest_spec(v, cands).0.entries, #[trigger] cands[k])
                || ingest_spec(v, cands).0.next_id == u64::MAX,
    decreases cands.len(),
{
    if cands.len() > 0 {
        let p = cands.first();
        lemma_ingest_one_extends(v, p);
        let v1 = ingest_one_spec(v, p).0;
        lemma_ingest_extends(v1, cands.drop_first());
        lemma_ingest_covers(v1, cands.drop_first());
        let r = ingest_spec(v, cands).0;
        assert(ingest_spec(v1, cands.drop_first()).0 == r);
        assert forall|k: int| 0 <= k < cands.len() implies has_path(
            r.entries,
            #[trigger] cands[k],
        ) || r.next_id == u64::MAX by {
            if k == 0 {
                if has_path(v1.entries, p) {
                    assert(has_path(r.entries, p));
                } else {
                    assert(v1.next_id == u64::MAX);
                    assert(r == v1);
                }
            } else {
                assert(cands.drop_first()[k - 1] == cands[k]);
            }
        }
    }
}

/// A batch whose every candidate is already tracked changes nothing and
/// dispatches nothing — in particular, it consumes no id. The same holds
/// once the id counter is exhausted.
pub proof fn lemma_ingest_all_present(v: RegistryView, cands: Seq<Seq<char>>)
    requires
        v.wf(),
        forall|k: int|
            0 <= k < cands.len() ==> has_path(v.entries, #[trigger] cands[k]) || v.next_id
                == u64::MAX,
    ensures
        ingest_spec(v, cands).0 == v,
        ingest_spec(v, cands).1 == Seq::<DispatchView>::empty(),
    decreases cands.len(),
{
    if cands.len() > 0 {
        assert(ingest_one_spec(v, cands.first()).0 == v);
        assert forall|k: int| 0 <= k < cands.drop_first().len() implies has_path(
            v.entries,
            #[trigger] cands.drop_first()[k],
        ) || v.next_id == u64::MAX by {
            assert(cands.drop_first()[k] == cands[k + 1]);
        }
        lemma_ingest_all_present(v, cands.drop_first());
        assert(ingest_spec(v, cands).1 =~= Seq::<DispatchView>::empty());
    }
}

/// Idempotent ingestion: feeding the very same candidates through the
/// registry a second time — the same path dropped twice, or two
/// overlapping directory drops — leaves the registry exactly as the
/// first pass left it, creates no entry and dispatches nothing.
pub proof fn lemma_ingest_idempotent(v: RegistryView, cands: Seq<Seq<char>>)
    requires
        v.wf(),
    ensures
        ingest_spec(ingest_spec(v, cands).0, cands).0 == ingest_spec(v, cands).0,
        ingest_spec(ingest_spec(v, cands).0, cands).1 == Seq::<DispatchView>::empty(),
{
    lemma_ingest_extends(v, cands);
    lemma_ingest_covers(v, cands);
    lemma_ingest_all_present(ingest_spec(v, cands).0, cands);
}

} // verus!
