//! The order of what is shown: the records that arrived are put in order,
//! each record is kept once, and the list is cut at the limit.

use crate::issue::Issue;
use crate::sort::Sorting;
use itertools::Itertools;
use vstd::prelude::*;

verus! {

/// `sorted_part` with `x` put in: behind every record that `x` does not have
/// to come before, looked for from the back.
pub open spec fn inserted(sorted_part: Seq<Issue>, x: Issue, sorting: Sorting) -> Seq<Issue>
    decreases sorted_part.len(),
{
    if sorted_part.len() > 0 && sorting.before(x@, sorted_part.last()@) {
        inserted(sorted_part.drop_last(), x, sorting).push(sorted_part.last())
    } else {
        sorted_part.push(x)
    }
}

/// The records in order: each one is put in among those that arrived before
/// it, behind those that it does not have to come before.
pub open spec fn in_order(records: Seq<Issue>, sorting: Sorting) -> Seq<Issue>
    decreases records.len(),
{
    if records.len() == 0 {
        records
    } else {
        inserted(in_order(records.drop_last(), sorting), records.last(), sorting)
    }
}

/// Whether one of `records` has the id `id`.
pub open spec fn has_id(records: Seq<Issue>, id: u64) -> bool {
    exists|i: int| 0 <= i < records.len() && (#[trigger] records[i]).id == id
}

/// The records without repetitions: of the records with one id, the first
/// stays.
pub open spec fn first_by_id(records: Seq<Issue>) -> Seq<Issue>
    decreases records.len(),
{
    if records.len() == 0 {
        records
    } else if has_id(records.drop_last(), records.last().id) {
        first_by_id(records.drop_last())
    } else {
        first_by_id(records.drop_last()).push(records.last())
    }
}

/// The first `limit` of `records`, or all of them where there are fewer.
pub open spec fn at_most(records: Seq<Issue>, limit: u32) -> Seq<Issue> {
    if limit < records.len() {
        records.take(limit as int)
    } else {
        records
    }
}

/// What is shown of the records that arrived: they are put in order, each
/// record is kept once, and the list is cut at the limit.
pub open spec fn arranged(records: Seq<Issue>, sorting: Sorting, limit: u32) -> Seq<Issue> {
    at_most(first_by_id(in_order(records, sorting)), limit)
}

/// Where `inserted` puts a record: at the place `at`, if the record has to
/// come before all that stands from `at` on, and not before what stands just
/// before `at`.
pub proof fn lemma_inserted_at(sorted_part: Seq<Issue>, x: Issue, sorting: Sorting, at: int)
    requires
        0 <= at <= sorted_part.len(),
        forall|k: int| at <= k < sorted_part.len() ==> sorting.before(x@, (#[trigger] sorted_part[k])@),
        at > 0 ==> !sorting.before(x@, sorted_part[at - 1]@),
    ensures
        inserted(sorted_part, x, sorting) == sorted_part.insert(at, x),
    decreases sorted_part.len() - at,
{
    if at == sorted_part.len() {
        assert(sorted_part.insert(at, x) =~= sorted_part.push(x));
    } else {
        assert(sorting.before(x@, sorted_part[sorted_part.len() - 1]@));
        let shorter = sorted_part.drop_last();
        assert forall|k: int| at <= k < shorter.len() implies sorting.before(
            x@,
            (#[trigger] shorter[k])@,
        ) by {
            assert(shorter[k] == sorted_part[k]);
        }
        lemma_inserted_at(shorter, x, sorting, at);
        assert(shorter.insert(at, x).push(sorted_part.last()) =~= sorted_part.insert(at, x));
    }
}

/// `Itertools::unique_by` with the id as the key, on the records of a list:
/// the records come out in their order, but for those whose id a record
/// before them has.
#[verifier::external_body]
fn unique_by_id(records: Vec<Issue>) -> (kept: Vec<Issue>)
    ensures
        kept@ == first_by_id(records@),
{
    records.into_iter().unique_by(|i| i.id).collect()
}

/// Puts the records in order. Records that neither have to come before the
/// other stay in the order they arrived in.
pub fn put_in_order(records: Vec<Issue>, sorting: Sorting) -> (ordered: Vec<Issue>)
    ensures
        ordered@ == in_order(records@, sorting),
{
    let mut rest = records;
    let ghost all = rest@;
    let ghost mut done: int = 0;
    let mut ordered: Vec<Issue> = Vec::new();
    while rest.len() > 0
        invariant
            0 <= done <= all.len(),
            rest@ == all.skip(done),
            ordered@ == in_order(all.take(done), sorting),
        decreases rest@.len(),
    {
        let x = rest.remove(0);
        proof {
            assert(x == all[done]);
            assert(rest@ =~= all.skip(done + 1));
            assert(all.take(done + 1).drop_last() =~= all.take(done));
            assert(all.take(done + 1).last() == x);
        }
        let mut at: usize = ordered.len();
        while at > 0 && sorting.precedes(&x, &ordered[at - 1])
            invariant
                at <= ordered@.len(),
                forall|k: int|
                    at <= k < ordered@.len() ==> sorting.before(x@, (#[trigger] ordered@[k])@),
            decreases at,
        {
            at -= 1;
        }
        proof {
            lemma_inserted_at(ordered@, x, sorting, at as int);
        }
        ordered.insert(at, x);
        proof {
            done = done + 1;
        }
    }
    proof {
        assert(all.take(all.len() as int) =~= all);
    }
    ordered
}

/// What is shown of the records that arrived: they are put in order, each
/// record is kept once, the first in that order, and the list is cut at the
/// limit.
pub fn arrange(records: Vec<Issue>, sorting: Sorting, limit: u32) -> (shown: Vec<Issue>)
    ensures
        shown@ == arranged(records@, sorting, limit),
{
    let ordered = put_in_order(records, sorting);
    let mut shown = unique_by_id(ordered);
    shown.truncate(limit as usize);
    shown
}

/// Whether no record of `records` has to come before one that stands before
/// it.
pub open spec fn ordered(records: Seq<Issue>, sorting: Sorting) -> bool {
    forall|i: int, j: int|
        #![trigger records[i], records[j]]
        0 <= i < j < records.len() ==> !sorting.before(records[j]@, records[i]@)
}

/// The ids of `records`.
pub open spec fn ids(records: Seq<Issue>) -> Set<u64> {
    records.map_values(|r: Issue| r.id).to_set()
}

/// `inserted` adds the record and nothing else.
pub proof fn lemma_inserted_multiset(sorted_part: Seq<Issue>, x: Issue, sorting: Sorting)
    ensures
        inserted(sorted_part, x, sorting).to_multiset() == sorted_part.to_multiset().insert(x),
        inserted(sorted_part, x, sorting).len() == sorted_part.len() + 1,
    decreases sorted_part.len(),
{
    broadcast use vstd::seq_lib::group_to_multiset_ensures;

    if sorted_part.len() > 0 && sorting.before(x@, sorted_part.last()@) {
        let shorter = sorted_part.drop_last();
        lemma_inserted_multiset(shorter, x, sorting);
        assert(sorted_part =~= shorter.push(sorted_part.last()));
        assert(inserted(sorted_part, x, sorting).to_multiset() =~= sorted_part.to_multiset().insert(
            x,
        ));
    }
}

/// A record stands in `inserted` exactly if it stood there before, or is the
/// one that was put in.
pub proof fn lemma_inserted_contains(sorted_part: Seq<Issue>, x: Issue, sorting: Sorting, e: Issue)
    ensures
        inserted(sorted_part, x, sorting).contains(e) <==> sorted_part.contains(e) || e == x,
{
    broadcast use vstd::seq_lib::group_to_multiset_ensures;

    let result = inserted(sorted_part, x, sorting);
    lemma_inserted_multiset(sorted_part, x, sorting);
    assert(result.contains(e) <==> result.to_multiset().count(e) > 0);
    assert(sorted_part.contains(e) <==> sorted_part.to_multiset().count(e) > 0);
}

/// Putting a record into an ordered list leaves it ordered.
pub proof fn lemma_inserted_ordered(sorted_part: Seq<Issue>, x: Issue, sorting: Sorting)
    requires
        ordered(sorted_part, sorting),
    ensures
        ordered(inserted(sorted_part, x, sorting), sorting),
    decreases sorted_part.len(),
{
    let result = inserted(sorted_part, x, sorting);
    if sorted_part.len() > 0 && sorting.before(x@, sorted_part.last()@) {
        let shorter = sorted_part.drop_last();
        let last = sorted_part.last();
        assert(ordered(shorter, sorting)) by {
            assert forall|i: int, j: int|
                #![trigger shorter[i], shorter[j]]
                0 <= i < j < shorter.len() implies !sorting.before(shorter[j]@, shorter[i]@) by {
                assert(shorter[i] == sorted_part[i] && shorter[j] == sorted_part[j]);
            }
        }
        lemma_inserted_ordered(shorter, x, sorting);
        lemma_inserted_multiset(shorter, x, sorting);
        let front = inserted(shorter, x, sorting);
        assert forall|i: int, j: int|
            #![trigger result[i], result[j]]
            0 <= i < j < result.len() implies !sorting.before(result[j]@, result[i]@) by {
            if j < front.len() {
                assert(result[i] == front[i] && result[j] == front[j]);
            } else {
                assert(result[j] == last);
                assert(result[i] == front[i]);
                lemma_inserted_contains(shorter, x, sorting, front[i]);
                assert(front.contains(front[i]));
                if front[i] == x {
                    crate::sort::lemma_before_asymmetric(sorting, x@, last@);
                } else {
                    let k = choose|k: int| 0 <= k < shorter.len() && shorter[k] == front[i];
                    assert(sorted_part[k] == front[i]);
                    assert(sorted_part[sorted_part.len() - 1] == last);
                }
            }
        }
    } else {
        assert forall|i: int, j: int|
            #![trigger result[i], result[j]]
            0 <= i < j < result.len() implies !sorting.before(result[j]@, result[i]@) by {
            if j < sorted_part.len() {
                assert(result[i] == sorted_part[i] && result[j] == sorted_part[j]);
            } else {
                assert(result[j] == x);
                assert(result[i] == sorted_part[i]);
                let last = sorted_part[sorted_part.len() - 1];
                if i < sorted_part.len() - 1 {
                    assert(!sorting.before(last@, sorted_part[i]@));
                    crate::sort::lemma_not_before_transitive(
                        sorting,
                        x@,
                        last@,
                        sorted_part[i]@,
                    );
                }
            }
        }
    }
}

/// Putting records in order neither adds nor loses a record.
pub proof fn lemma_in_order_multiset(records: Seq<Issue>, sorting: Sorting)
    ensures
        in_order(records, sorting).to_multiset() == records.to_multiset(),
        in_order(records, sorting).len() == records.len(),
    decreases records.len(),
{
    broadcast use vstd::seq_lib::group_to_multiset_ensures;

    if records.len() > 0 {
        let shorter = records.drop_last();
        lemma_in_order_multiset(shorter, sorting);
        lemma_inserted_multiset(in_order(shorter, sorting), records.last(), sorting);
        assert(records =~= shorter.push(records.last()));
    }
}

/// What was put in order is ordered.
pub proof fn lemma_in_order_ordered(records: Seq<Issue>, sorting: Sorting)
    ensures
        ordered(in_order(records, sorting), sorting),
    decreases records.len(),
{
    if records.len() > 0 {
        lemma_in_order_ordered(records.drop_last(), sorting);
        lemma_inserted_ordered(in_order(records.drop_last(), sorting), records.last(), sorting);
    }
}

/// Records of which none has to come before another stay as they arrived.
pub proof fn lemma_in_order_keeps_ties(records: Seq<Issue>, sorting: Sorting)
    requires
        forall|i: int, j: int|
            #![trigger records[i], records[j]]
            0 <= i < records.len() && 0 <= j < records.len() ==> !sorting.before(
                records[i]@,
                records[j]@,
            ),
    ensures
        in_order(records, sorting) == records,
    decreases records.len(),
{
    if records.len() > 0 {
        let shorter = records.drop_last();
        assert forall|i: int, j: int|
            #![trigger shorter[i], shorter[j]]
            0 <= i < shorter.len() && 0 <= j < shorter.len() implies !sorting.before(
            shorter[i]@,
            shorter[j]@,
        ) by {
            assert(shorter[i] == records[i] && shorter[j] == records[j]);
        }
        lemma_in_order_keeps_ties(shorter, sorting);
        if shorter.len() > 0 {
            assert(shorter.last() == records[shorter.len() - 1]);
            assert(records.last() == records[records.len() - 1]);
        }
        assert(shorter.push(records.last()) =~= records);
    }
}

/// What `first_by_id` keeps: each id of the records once, with the first
/// record that has it, in the order of the records.
pub proof fn lemma_first_by_id(records: Seq<Issue>)
    ensures
        first_by_id(records).len() <= records.len(),
        forall|id: u64| has_id(first_by_id(records), id) <==> has_id(records, id),
        forall|i: int, j: int|
            #![trigger first_by_id(records)[i], first_by_id(records)[j]]
            0 <= i < j < first_by_id(records).len() ==> first_by_id(records)[i].id != first_by_id(
                records,
            )[j].id,
        forall|k: int|
            0 <= k < first_by_id(records).len() ==> is_first_with_id(
                records,
                #[trigger] first_by_id(records)[k],
            ),
    decreases records.len(),
{
    let kept = first_by_id(records);
    if records.len() > 0 {
        let shorter = records.drop_last();
        let last = records.last();
        let before = first_by_id(shorter);
        lemma_first_by_id(shorter);
        assert forall|id: u64| has_id(kept, id) <==> has_id(records, id) by {
            if has_id(records, id) {
                let i = choose|i: int| 0 <= i < records.len() && (#[trigger] records[i]).id == id;
                if i < shorter.len() {
                    assert(shorter[i].id == id);
                    assert(has_id(shorter, id));
                    assert(has_id(before, id));
                    let k = choose|k: int| 0 <= k < before.len() && (#[trigger] before[k]).id == id;
                    assert(kept[k].id == id);
                } else if has_id(shorter, id) {
                    assert(has_id(before, id));
                    let k = choose|k: int| 0 <= k < before.len() && (#[trigger] before[k]).id == id;
                    assert(kept[k].id == id);
                } else {
                    assert(kept[kept.len() - 1].id == id);
                }
            }
            if has_id(kept, id) {
                let k = choose|k: int| 0 <= k < kept.len() && (#[trigger] kept[k]).id == id;
                if k < before.len() {
                    assert(before[k].id == id);
                    assert(has_id(shorter, id));
                    let i = choose|i: int| 0 <= i < shorter.len() && (#[trigger] shorter[i]).id == id;
                    assert(records[i].id == id);
                } else {
                    assert(records[records.len() - 1].id == id);
                }
            }
        }
        assert forall|i: int, j: int|
            #![trigger kept[i], kept[j]]
            0 <= i < j < kept.len() implies kept[i].id != kept[j].id by {
            if j < before.len() {
                assert(kept[i] == before[i] && kept[j] == before[j]);
            } else {
                assert(kept[j] == last);
                assert(kept[i] == before[i]);
                if before[i].id == last.id {
                    assert(has_id(before, last.id));
                }
            }
        }
        assert forall|k: int| 0 <= k < kept.len() implies is_first_with_id(
            records,
            #[trigger] kept[k],
        ) by {
            if k < before.len() {
                assert(kept[k] == before[k]);
                assert(is_first_with_id(shorter, before[k]));
                let p = choose|p: int| stands_first_at(shorter, before[k], p);
                assert(stands_first_at(records, kept[k], p)) by {
                    assert(records[p] == shorter[p]);
                    assert forall|q: int| 0 <= q < p implies (#[trigger] records[q]).id
                        != kept[k].id by {
                        assert(records[q] == shorter[q]);
                    }
                }
            } else {
                assert(kept[k] == last);
                let p = records.len() - 1;
                assert(stands_first_at(records, last, p)) by {
                    assert forall|q: int| 0 <= q < p implies (#[trigger] records[q]).id
                        != last.id by {
                        assert(records[q] == shorter[q]);
                    }
                }
            }
        }
    }
}

/// Whether `record` stands at the place `at` of `records`, and no record
/// before it has its id.
pub open spec fn stands_first_at(records: Seq<Issue>, record: Issue, at: int) -> bool {
    &&& 0 <= at < records.len()
    &&& records[at] == record
    &&& forall|q: int| 0 <= q < at ==> (#[trigger] records[q]).id != record.id
}

/// Whether `record` is the first of `records` that has its id.
pub open spec fn is_first_with_id(records: Seq<Issue>, record: Issue) -> bool {
    exists|at: int| stands_first_at(records, record, at)
}

/// `first_by_id` keeps as many records as there are ids.
pub proof fn lemma_first_by_id_len(records: Seq<Issue>)
    ensures
        ids(records).finite(),
        first_by_id(records).len() == ids(records).len(),
    decreases records.len(),
{
    let all = records.map_values(|r: Issue| r.id);
    if records.len() == 0 {
        assert(ids(records) =~= Set::<u64>::empty());
    } else {
        let shorter = records.drop_last();
        let last = records.last();
        lemma_first_by_id_len(shorter);
        let fewer = shorter.map_values(|r: Issue| r.id);
        assert(ids(records) =~= ids(shorter).insert(last.id)) by {
            assert forall|id: u64| ids(records).contains(id) <==> ids(shorter).insert(
                last.id,
            ).contains(id) by {
                if ids(records).contains(id) {
                    let i = choose|i: int| 0 <= i < all.len() && all[i] == id;
                    if i < shorter.len() {
                        assert(fewer[i] == id);
                    }
                }
                if ids(shorter).contains(id) {
                    let i = choose|i: int| 0 <= i < fewer.len() && fewer[i] == id;
                    assert(all[i] == id);
                }
                if id == last.id {
                    assert(all[records.len() - 1] == id);
                }
            }
        }
        assert(has_id(shorter, last.id) <==> ids(shorter).contains(last.id)) by {
            if has_id(shorter, last.id) {
                let i = choose|i: int| 0 <= i < shorter.len() && (#[trigger] shorter[i]).id == last.id;
                assert(fewer[i] == last.id);
            }
            if ids(shorter).contains(last.id) {
                let i = choose|i: int| 0 <= i < fewer.len() && fewer[i] == last.id;
                assert(shorter[i].id == last.id);
            }
        }
    }
}

/// Records in another order have the same ids.
pub proof fn lemma_same_records_same_ids(a: Seq<Issue>, b: Seq<Issue>)
    requires
        a.to_multiset() == b.to_multiset(),
    ensures
        ids(a) == ids(b),
{
    broadcast use vstd::seq_lib::group_to_multiset_ensures;

    let ids_a = a.map_values(|r: Issue| r.id);
    let ids_b = b.map_values(|r: Issue| r.id);
    assert forall|id: u64| ids(a).contains(id) <==> ids(b).contains(id) by {
        if ids(a).contains(id) {
            let i = choose|i: int| 0 <= i < ids_a.len() && ids_a[i] == id;
            assert(a.contains(a[i]));
            assert(a.to_multiset().count(a[i]) > 0);
            assert(b.to_multiset().count(a[i]) > 0);
            assert(b.contains(a[i]));
            let k = choose|k: int| 0 <= k < b.len() && b[k] == a[i];
            assert(ids_b[k] == id);
        }
        if ids(b).contains(id) {
            let i = choose|i: int| 0 <= i < ids_b.len() && ids_b[i] == id;
            assert(b.contains(b[i]));
            assert(b.to_multiset().count(b[i]) > 0);
            assert(a.to_multiset().count(b[i]) > 0);
            assert(a.contains(b[i]));
            let k = choose|k: int| 0 <= k < a.len() && a[k] == b[i];
            assert(ids_a[k] == id);
        }
    }
    assert(ids(a) =~= ids(b));
}

/// Dropping repetitions from an ordered list leaves it ordered.
pub proof fn lemma_first_by_id_ordered(records: Seq<Issue>, sorting: Sorting)
    requires
        ordered(records, sorting),
    ensures
        ordered(first_by_id(records), sorting),
    decreases records.len(),
{
    let kept = first_by_id(records);
    if records.len() > 0 {
        let shorter = records.drop_last();
        let last = records.last();
        let before = first_by_id(shorter);
        assert(ordered(shorter, sorting)) by {
            assert forall|i: int, j: int|
                #![trigger shorter[i], shorter[j]]
                0 <= i < j < shorter.len() implies !sorting.before(shorter[j]@, shorter[i]@) by {
                assert(shorter[i] == records[i] && shorter[j] == records[j]);
            }
        }
        lemma_first_by_id_ordered(shorter, sorting);
        lemma_first_by_id(shorter);
        assert forall|i: int, j: int|
            #![trigger kept[i], kept[j]]
            0 <= i < j < kept.len() implies !sorting.before(kept[j]@, kept[i]@) by {
            if j < before.len() {
                assert(kept[i] == before[i] && kept[j] == before[j]);
            } else {
                assert(kept[j] == last);
                assert(kept[i] == before[i]);
                assert(is_first_with_id(shorter, before[i]));
                let p = choose|p: int| stands_first_at(shorter, before[i], p);
                assert(records[p] == before[i]);
                assert(records[records.len() - 1] == last);
            }
        }
    }
}

/// Whether neither of two records has to come before the other.
pub open spec fn ties(sorting: Sorting, a: Issue, b: Issue) -> bool {
    !sorting.before(a@, b@) && !sorting.before(b@, a@)
}

/// Those of `records` that tie with `x`, in their order.
pub open spec fn tied_with(records: Seq<Issue>, x: Issue, sorting: Sorting) -> Seq<Issue>
    decreases records.len(),
{
    if records.len() == 0 {
        records
    } else if ties(sorting, records.last(), x) {
        tied_with(records.drop_last(), x, sorting).push(records.last())
    } else {
        tied_with(records.drop_last(), x, sorting)
    }
}

/// A record that is put in comes behind the records it ties with.
pub proof fn lemma_inserted_behind_ties(
    sorted_part: Seq<Issue>,
    y: Issue,
    x: Issue,
    sorting: Sorting,
)
    ensures
        tied_with(inserted(sorted_part, y, sorting), x, sorting) == if ties(sorting, y, x) {
            tied_with(sorted_part, x, sorting).push(y)
        } else {
            tied_with(sorted_part, x, sorting)
        },
    decreases sorted_part.len(),
{
    if sorted_part.len() > 0 && sorting.before(y@, sorted_part.last()@) {
        let shorter = sorted_part.drop_last();
        let last = sorted_part.last();
        lemma_inserted_behind_ties(shorter, y, x, sorting);
        let result = inserted(sorted_part, y, sorting);
        assert(result.drop_last() =~= inserted(shorter, y, sorting));
        assert(result.last() == last);
        if ties(sorting, y, x) && ties(sorting, last, x) {
            crate::sort::lemma_not_before_transitive(sorting, y@, x@, last@);
        }
    } else {
        assert(sorted_part.push(y).drop_last() =~= sorted_part);
    }
}

/// Records that tie are shown in the order they arrived in: putting records
/// in order changes nothing among those that tie with one another.
pub proof fn law_ties_keep_arrival_order(records: Seq<Issue>, x: Issue, sorting: Sorting)
    ensures
        tied_with(in_order(records, sorting), x, sorting) == tied_with(records, x, sorting),
    decreases records.len(),
{
    if records.len() > 0 {
        law_ties_keep_arrival_order(records.drop_last(), x, sorting);
        lemma_inserted_behind_ties(
            in_order(records.drop_last(), sorting),
            records.last(),
            x,
            sorting,
        );
    }
}

/// Every id is shown once, with the first record in order that has it: of two
/// records with one id, whichever request they came from, the one that comes
/// first after ordering is shown, and the other is not.
pub proof fn law_each_id_shown_once(records: Seq<Issue>, sorting: Sorting, limit: u32)
    ensures
        forall|i: int, j: int|
            #![trigger arranged(records, sorting, limit)[i], arranged(records, sorting, limit)[j]]
            0 <= i < j < arranged(records, sorting, limit).len() ==> arranged(
                records,
                sorting,
                limit,
            )[i].id != arranged(records, sorting, limit)[j].id,
        forall|k: int|
            0 <= k < arranged(records, sorting, limit).len() ==> is_first_with_id(
                in_order(records, sorting),
                #[trigger] arranged(records, sorting, limit)[k],
            ),
{
    let kept = first_by_id(in_order(records, sorting));
    let shown = arranged(records, sorting, limit);
    lemma_first_by_id(in_order(records, sorting));
    assert forall|i: int, j: int|
        #![trigger shown[i], shown[j]]
        0 <= i < j < shown.len() implies shown[i].id != shown[j].id by {
        assert(shown[i] == kept[i] && shown[j] == kept[j]);
    }
    assert forall|k: int| 0 <= k < shown.len() implies is_first_with_id(
        in_order(records, sorting),
        #[trigger] shown[k],
    ) by {
        assert(shown[k] == kept[k]);
    }
}

/// Records with equal keys are shown in the order they arrived: where no
/// record has to come before another, all ids differ and the limit is not
/// reached, what is shown is what arrived.
pub proof fn law_equal_keys_keep_arrival_order(records: Seq<Issue>, sorting: Sorting, limit: u32)
    requires
        forall|i: int, j: int|
            #![trigger records[i], records[j]]
            0 <= i < records.len() && 0 <= j < records.len() ==> !sorting.before(
                records[i]@,
                records[j]@,
            ),
        forall|i: int, j: int|
            #![trigger records[i], records[j]]
            0 <= i < j < records.len() ==> records[i].id != records[j].id,
        records.len() <= limit,
    ensures
        in_order(records, sorting) == records,
        arranged(records, sorting, limit) == records,
{
    lemma_in_order_keeps_ties(records, sorting);
    lemma_distinct_ids_all_kept(records);
}

/// Where all ids differ, `first_by_id` keeps every record.
pub proof fn lemma_distinct_ids_all_kept(records: Seq<Issue>)
    requires
        forall|i: int, j: int|
            #![trigger records[i], records[j]]
            0 <= i < j < records.len() ==> records[i].id != records[j].id,
    ensures
        first_by_id(records) == records,
    decreases records.len(),
{
    if records.len() > 0 {
        let shorter = records.drop_last();
        assert forall|i: int, j: int|
            #![trigger shorter[i], shorter[j]]
            0 <= i < j < shorter.len() implies shorter[i].id != shorter[j].id by {
            assert(shorter[i] == records[i] && shorter[j] == records[j]);
        }
        lemma_distinct_ids_all_kept(shorter);
        if has_id(shorter, records.last().id) {
            let i = choose|i: int| 0 <= i < shorter.len() && (#[trigger] shorter[i]).id == records.last().id;
            assert(records[i].id == records[records.len() - 1].id);
        }
        assert(shorter.push(records.last()) =~= records);
    }
}

/// The limit is kept: as many records are shown as there are ids among those
/// that arrived, but no more than the limit. They are the first of the
/// records in order, each id once, and they are in order themselves.
pub proof fn law_limit_is_kept(records: Seq<Issue>, sorting: Sorting, limit: u32)
    ensures
        ids(records).finite(),
        ids(records).len() <= records.len(),
        arranged(records, sorting, limit).len() == if limit < ids(records).len() {
            limit as nat
        } else {
            ids(records).len()
        },
        arranged(records, sorting, limit) == first_by_id(in_order(records, sorting)).take(
            arranged(records, sorting, limit).len() as int,
        ),
        ordered(arranged(records, sorting, limit), sorting),
{
    let sorted_all = in_order(records, sorting);
    let kept = first_by_id(sorted_all);
    let shown = arranged(records, sorting, limit);
    lemma_in_order_multiset(records, sorting);
    lemma_same_records_same_ids(sorted_all, records);
    lemma_first_by_id_len(sorted_all);
    lemma_first_by_id_len(records);
    lemma_first_by_id(records);
    lemma_in_order_ordered(records, sorting);
    lemma_first_by_id_ordered(sorted_all, sorting);
    assert(kept.take(kept.len() as int) =~= kept);
    assert forall|i: int, j: int|
        #![trigger shown[i], shown[j]]
        0 <= i < j < shown.len() implies !sorting.before(shown[j]@, shown[i]@) by {
        assert(shown[i] == kept[i] && shown[j] == kept[j]);
    }
}

/// Nothing is shown that did not arrive.
pub proof fn law_shown_records_arrived(records: Seq<Issue>, sorting: Sorting, limit: u32)
    ensures
        forall|k: int|
            0 <= k < arranged(records, sorting, limit).len() ==> records.contains(
                #[trigger] arranged(records, sorting, limit)[k],
            ),
{
    broadcast use vstd::seq_lib::group_to_multiset_ensures;

    let sorted_all = in_order(records, sorting);
    let kept = first_by_id(sorted_all);
    let shown = arranged(records, sorting, limit);
    lemma_first_by_id(sorted_all);
    lemma_in_order_multiset(records, sorting);
    assert forall|k: int| 0 <= k < shown.len() implies records.contains(#[trigger] shown[k]) by {
        assert(shown[k] == kept[k]);
        assert(is_first_with_id(sorted_all, kept[k]));
        let p = choose|p: int| stands_first_at(sorted_all, kept[k], p);
        assert(sorted_all.contains(sorted_all[p]));
        assert(sorted_all.to_multiset().count(shown[k]) > 0);
        assert(records.to_multiset().count(shown[k]) > 0);
    }
}

} // verus!
