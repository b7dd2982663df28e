//! Keeping the first of each identifier: which of a run of candidate records
//! join a list whose identifiers are known, and what holds of those that do.

use vstd::prelude::*;

use crate::qstr::QStrView;

verus! {

/// The identifiers that occur in a list of records.
pub open spec fn idents_of(list: Seq<QStrView>) -> Set<Seq<char>> {
    Set::new(|ident: Seq<char>| exists|i: int| 0 <= i < list.len() && #[trigger] list[i].ident == ident)
}

/// Whether the candidate at `i` brings an identifier that is neither known
/// already nor brought by an earlier candidate.
pub open spec fn first_seen(seen: Set<Seq<char>>, candidates: Seq<QStrView>, i: int) -> bool {
    &&& !seen.contains(candidates[i].ident)
    &&& forall|j: int| 0 <= j < i ==> (#[trigger] candidates[j]).ident != candidates[i].ident
}

/// The candidates that are kept: those that are first seen, in their order.
pub open spec fn fresh_records(seen: Set<Seq<char>>, candidates: Seq<QStrView>) -> Seq<QStrView>
    decreases candidates.len(),
{
    if candidates.len() == 0 {
        Seq::empty()
    } else {
        let earlier = fresh_records(seen, candidates.drop_last());
        if first_seen(seen, candidates, candidates.len() - 1) {
            earlier.push(candidates.last())
        } else {
            earlier
        }
    }
}

/// Whether no identifier occurs twice in a list of records.
pub open spec fn distinct_idents(list: Seq<QStrView>) -> bool {
    forall|i: int, j: int|
        0 <= i < j < list.len() ==> (#[trigger] list[i]).ident != (#[trigger] list[j]).ident
}

/// The places of the candidates that are kept, in rising order.
pub open spec fn fresh_positions(seen: Set<Seq<char>>, candidates: Seq<QStrView>) -> Seq<int>
    decreases candidates.len(),
{
    if candidates.len() == 0 {
        Seq::empty()
    } else {
        let earlier = fresh_positions(seen, candidates.drop_last());
        if first_seen(seen, candidates, candidates.len() - 1) {
            earlier.push(candidates.len() - 1)
        } else {
            earlier
        }
    }
}

/// One more record adds its identifier to those of a list.
pub proof fn lemma_idents_of_push(list: Seq<QStrView>, record: QStrView)
    ensures
        idents_of(list.push(record)) == idents_of(list).insert(record.ident),
{
    let longer = list.push(record);
    assert forall|ident: Seq<char>|
        idents_of(list).insert(record.ident).contains(ident) implies idents_of(longer).contains(
        ident,
    ) by {
        if ident == record.ident {
            assert(longer[list.len() as int].ident == ident);
        } else {
            let k = choose|k: int| 0 <= k < list.len() && (#[trigger] list[k]).ident == ident;
            assert(longer[k].ident == ident);
        }
    }
    assert forall|ident: Seq<char>| idents_of(longer).contains(ident) implies idents_of(
        list,
    ).insert(record.ident).contains(ident) by {
        let k = choose|k: int| 0 <= k < longer.len() && (#[trigger] longer[k]).ident == ident;
        if k < list.len() {
            assert(list[k].ident == ident);
        }
    }
    assert(idents_of(longer) =~= idents_of(list).insert(record.ident));
}

/// One more candidate is kept exactly when its identifier is neither known
/// nor that of a candidate before it.
pub proof fn lemma_fresh_records_push(
    seen: Set<Seq<char>>,
    candidates: Seq<QStrView>,
    record: QStrView,
)
    ensures
        fresh_records(seen, candidates.push(record)) == if (seen + idents_of(candidates)).contains(
            record.ident,
        ) {
            fresh_records(seen, candidates)
        } else {
            fresh_records(seen, candidates).push(record)
        },
{
    let longer = candidates.push(record);
    let at = candidates.len() as int;
    assert(longer.drop_last() =~= candidates);
    if first_seen(seen, longer, at) {
        if idents_of(candidates).contains(record.ident) {
            let k = choose|k: int|
                0 <= k < candidates.len() && (#[trigger] candidates[k]).ident == record.ident;
            assert(longer[k].ident == longer[at].ident);
        }
    } else if !seen.contains(record.ident) {
        let j = choose|j: int| 0 <= j < at && (#[trigger] longer[j]).ident == longer[at].ident;
        assert(candidates[j].ident == record.ident);
    }
}

/// The kept candidates stand in the order of their first occurrence: they
/// are the candidates at the first-seen places, and those places rise. Every
/// first-seen place is among them.
pub proof fn lemma_fresh_records_order(seen: Set<Seq<char>>, candidates: Seq<QStrView>)
    ensures
        fresh_records(seen, candidates).len() == fresh_positions(seen, candidates).len(),
        forall|k: int|
            0 <= k < fresh_positions(seen, candidates).len() ==> {
                let p = #[trigger] fresh_positions(seen, candidates)[k];
                &&& 0 <= p < candidates.len()
                &&& first_seen(seen, candidates, p)
                &&& fresh_records(seen, candidates)[k] == candidates[p]
            },
        forall|k: int, l: int|
            0 <= k < l < fresh_positions(seen, candidates).len() ==> fresh_positions(
                seen,
                candidates,
            )[k] < fresh_positions(seen, candidates)[l],
        forall|p: int|
            0 <= p < candidates.len() && first_seen(seen, candidates, p) ==> fresh_positions(
                seen,
                candidates,
            ).contains(p),
    decreases candidates.len(),
{
    if candidates.len() > 0 {
        let shorter = candidates.drop_last();
        let last = candidates.len() - 1;
        lemma_fresh_records_order(seen, shorter);
        let earlier = fresh_positions(seen, shorter);
        let places = fresh_positions(seen, candidates);
        assert forall|p: int| 0 <= p < shorter.len() implies first_seen(seen, shorter, p)
            == first_seen(seen, candidates, p) by {
            if first_seen(seen, shorter, p) {
                assert forall|j: int| 0 <= j < p implies (#[trigger] candidates[j]).ident
                    != candidates[p].ident by {
                    assert(shorter[j] == candidates[j]);
                }
            }
        }
        assert forall|p: int|
            0 <= p < candidates.len() && first_seen(seen, candidates, p) implies places.contains(
            p,
        ) by {
            if p < last {
                let k = choose|k: int| 0 <= k < earlier.len() && earlier[k] == p;
                assert(places[k] == p);
            } else {
                assert(places[places.len() - 1] == p);
            }
        }
    }
}

/// No identifier is kept twice, and none is kept that was known already.
pub proof fn lemma_fresh_records_unique(seen: Set<Seq<char>>, candidates: Seq<QStrView>)
    ensures
        forall|k: int|
            0 <= k < fresh_records(seen, candidates).len() ==> !seen.contains(
                (#[trigger] fresh_records(seen, candidates)[k]).ident,
            ),
        forall|k: int, l: int|
            0 <= k < l < fresh_records(seen, candidates).len() ==> (#[trigger] fresh_records(
                seen,
                candidates,
            )[k]).ident != (#[trigger] fresh_records(seen, candidates)[l]).ident,
{
    lemma_fresh_records_order(seen, candidates);
    let places = fresh_positions(seen, candidates);
    let kept = fresh_records(seen, candidates);
    assert forall|k: int| 0 <= k < kept.len() implies !seen.contains((#[trigger] kept[k]).ident) by {
        assert(kept[k] == candidates[places[k]]);
    }
    assert forall|k: int, l: int| 0 <= k < l < kept.len() implies (#[trigger] kept[k]).ident != (
    #[trigger] kept[l]).ident by {
        assert(kept[k] == candidates[places[k]]);
        assert(kept[l] == candidates[places[l]]);
    }
}

/// Every candidate's identifier is known afterwards: what was known before,
/// with the identifiers that were kept, is what was known before with the
/// identifiers of all candidates.
pub proof fn lemma_fresh_records_cover(seen: Set<Seq<char>>, candidates: Seq<QStrView>)
    ensures
        seen + idents_of(fresh_records(seen, candidates)) == seen + idents_of(candidates),
    decreases candidates.len(),
{
    let kept = fresh_records(seen, candidates);
    if candidates.len() > 0 {
        let shorter = candidates.drop_last();
        let last = candidates.last();
        let earlier = fresh_records(seen, shorter);
        lemma_fresh_records_cover(seen, shorter);
        assert forall|ident: Seq<char>| (seen + idents_of(kept)).contains(ident) implies (seen
            + idents_of(candidates)).contains(ident) by {
            if !seen.contains(ident) {
                let k = choose|k: int| 0 <= k < kept.len() && (#[trigger] kept[k]).ident == ident;
                if k < earlier.len() {
                    assert((seen + idents_of(earlier)).contains(ident));
                }
            }
        }
        assert forall|ident: Seq<char>| (seen + idents_of(candidates)).contains(ident) implies (seen
            + idents_of(kept)).contains(ident) by {
            if !seen.contains(ident) {
                let i = choose|i: int|
                    0 <= i < candidates.len() && (#[trigger] candidates[i]).ident == ident;
                if i < shorter.len() {
                    assert(shorter[i].ident == ident);
                    assert((seen + idents_of(shorter)).contains(ident));
                    let k = choose|k: int|
                        0 <= k < earlier.len() && (#[trigger] earlier[k]).ident == ident;
                    assert(kept[k].ident == ident);
                } else if first_seen(seen, candidates, candidates.len() - 1) {
                    assert(kept[kept.len() - 1].ident == ident);
                } else {
                    let j = choose|j: int|
                        0 <= j < candidates.len() - 1 && (#[trigger] candidates[j]).ident
                            == last.ident;
                    assert(shorter[j].ident == ident);
                }
            }
        }
    }
}

/// Candidates may be offered in parts: what is kept of two lists in a row is
/// what is kept of the first, then what is kept of the second once the
/// identifiers of the first are known.
pub proof fn lemma_fresh_records_concat(
    seen: Set<Seq<char>>,
    first: Seq<QStrView>,
    second: Seq<QStrView>,
)
    ensures
        fresh_records(seen, first + second) == fresh_records(seen, first) + fresh_records(
            seen + idents_of(first),
            second,
        ),
    decreases second.len(),
{
    let all = first + second;
    if second.len() > 0 {
        let at = all.len() - 1;
        let local = second.len() - 1;
        assert(all.drop_last() =~= first + second.drop_last());
        lemma_fresh_records_concat(seen, first, second.drop_last());
        if first_seen(seen, all, at) {
            if idents_of(first).contains(second[local].ident) {
                let k = choose|k: int|
                    0 <= k < first.len() && (#[trigger] first[k]).ident == second[local].ident;
                assert(all[k].ident == all[at].ident);
            }
            assert forall|j: int| 0 <= j < local implies (#[trigger] second[j]).ident
                != second[local].ident by {
                assert(all[first.len() + j] == second[j]);
            }
        }
    }
}

/// The identifiers of two lists in a row are those of either.
pub proof fn lemma_idents_of_concat(first: Seq<QStrView>, second: Seq<QStrView>)
    ensures
        idents_of(first + second) == idents_of(first) + idents_of(second),
{
    let all = first + second;
    assert forall|ident: Seq<char>| (idents_of(first) + idents_of(second)).contains(
        ident,
    ) implies idents_of(all).contains(ident) by {
        if idents_of(first).contains(ident) {
            let k = choose|k: int| 0 <= k < first.len() && (#[trigger] first[k]).ident == ident;
            assert(all[k].ident == ident);
        } else {
            let k = choose|k: int| 0 <= k < second.len() && (#[trigger] second[k]).ident == ident;
            assert(all[first.len() + k].ident == ident);
        }
    }
}

} // verus!
