//! Removals: the store's delete-many, the sweep and the reset.

use crate::database::collection::filters::{
    law_empty_filter_selects_all, law_expiry_filter_selects_expired, selects,
};
use crate::database::collection::publications::at_most_one_per_identity;
use crate::database::database_interface::expiry_filter;
use crate::models::user::PresenceRecord;
use crate::store_values::{no_fields, Fields};
use vstd::prelude::*;

verus! {

/// The records that `filter` selects.
pub open spec fn selected_by(filter: Fields) -> spec_fn(PresenceRecord) -> bool {
    |record: PresenceRecord| selects(filter, record)
}

/// The records that `filter` does not select.
pub open spec fn spared_by(filter: Fields) -> spec_fn(PresenceRecord) -> bool {
    |record: PresenceRecord| !selects(filter, record)
}

/// The store's delete-many: the records that `filter` does not select stay,
/// in their order.
pub open spec fn delete_many(records: Seq<PresenceRecord>, filter: Fields) -> Seq<PresenceRecord> {
    records.filter(spared_by(filter))
}

/// The count that the store reports for a delete-many: how many records
/// `filter` selects.
pub open spec fn deleted_count(records: Seq<PresenceRecord>, filter: Fields) -> nat {
    records.filter(selected_by(filter)).len()
}

/// The collection after a sweep with `cutoff`: the request of
/// `DataBaseInterface::remove_available_until` carried out by the store.
pub open spec fn sweep(records: Seq<PresenceRecord>, cutoff: i64) -> Seq<PresenceRecord> {
    delete_many(records, expiry_filter(cutoff))
}

/// The count that a sweep with `cutoff` reports.
pub open spec fn swept_count(records: Seq<PresenceRecord>, cutoff: i64) -> nat {
    deleted_count(records, expiry_filter(cutoff))
}

/// How many records of the collection expire at or after `from` and
/// strictly before `until`.
pub open spec fn expiring_between(records: Seq<PresenceRecord>, from: int, until: int) -> nat
    decreases records.len(),
{
    if records.len() == 0 {
        0
    } else {
        let earlier = expiring_between(records.drop_last(), from, until);
        if from <= records.last().expires_at < until {
            earlier + 1
        } else {
            earlier
        }
    }
}

proof fn lemma_filter_push(
    records: Seq<PresenceRecord>,
    last: PresenceRecord,
    pred: spec_fn(PresenceRecord) -> bool,
)
    ensures
        pred(last) ==> records.push(last).filter(pred) == records.filter(pred).push(last),
        !pred(last) ==> records.push(last).filter(pred) == records.filter(pred),
{
    reveal(Seq::filter);
    assert(records.push(last).drop_last() =~= records);
}

/// A delete-many removes the records that the filter selects and no others,
/// reports how many those were, and keeps the invariant of the collection.
pub proof fn law_delete_many_removes_the_selected(records: Seq<PresenceRecord>, filter: Fields)
    ensures
        forall|record: PresenceRecord|
            delete_many(records, filter).contains(record) <==> records.contains(record)
                && !selects(filter, record),
        delete_many(records, filter).len() + deleted_count(records, filter) == records.len(),
        at_most_one_per_identity(records) ==> at_most_one_per_identity(
            delete_many(records, filter),
        ),
    decreases records.len(),
{
    reveal(Seq::filter);
    if records.len() > 0 {
        let front = records.drop_last();
        let last = records.last();
        assert(records =~= front.push(last));
        law_delete_many_removes_the_selected(front, filter);
        lemma_filter_push(front, last, spared_by(filter));
        lemma_filter_push(front, last, selected_by(filter));
        let kept = delete_many(front, filter);
        let after = delete_many(records, filter);
        assert forall|record: PresenceRecord| after.contains(record) <==> records.contains(record)
            && !selects(filter, record) by {
            if after.contains(record) {
                let i = choose|i: int| 0 <= i < after.len() && after[i] == record;
                if i < kept.len() {
                    assert(kept[i] == record);
                    assert(kept.contains(record));
                    let j = choose|j: int| 0 <= j < front.len() && front[j] == record;
                    assert(records[j] == record);
                } else {
                    assert(record == last);
                    assert(records[records.len() - 1] == record);
                }
            }
            if records.contains(record) && !selects(filter, record) {
                let j = choose|j: int| 0 <= j < records.len() && records[j] == record;
                if j < front.len() {
                    assert(front[j] == record);
                    assert(front.contains(record));
                    let i = choose|i: int| 0 <= i < kept.len() && kept[i] == record;
                    assert(after[i] == record);
                } else {
                    assert(after[after.len() - 1] == record);
                }
            }
        }
        if at_most_one_per_identity(records) {
            assert(at_most_one_per_identity(front));
            assert forall|i: int, j: int| 0 <= i < j < after.len() implies after[i].identity_key
                != after[j].identity_key by {
                if j < kept.len() {
                    assert(kept[i].identity_key != kept[j].identity_key);
                } else {
                    assert(after[j] == last);
                    assert(kept[i] == after[i]);
                    assert(kept.contains(kept[i]));
                    let k = choose|k: int| 0 <= k < front.len() && front[k] == kept[i];
                    assert(records[k].identity_key != records[records.len() - 1].identity_key);
                }
            }
        }
    }
}

/// A sweep removes the records that expire strictly before the cutoff and no
/// others, and reports how many those were.
pub proof fn law_sweep_removes_the_expired(records: Seq<PresenceRecord>, cutoff: i64)
    ensures
        forall|record: PresenceRecord|
            sweep(records, cutoff).contains(record) <==> records.contains(record)
                && record.expires_at >= cutoff,
        swept_count(records, cutoff) == expiring_between(records, i64::MIN as int, cutoff as int),
        sweep(records, cutoff).len() + swept_count(records, cutoff) == records.len(),
        at_most_one_per_identity(records) ==> at_most_one_per_identity(sweep(records, cutoff)),
{
    let filter = expiry_filter(cutoff);
    law_delete_many_removes_the_selected(records, filter);
    assert forall|record: PresenceRecord|
        sweep(records, cutoff).contains(record) <==> records.contains(record) && record.expires_at
            >= cutoff by {
        law_expiry_filter_selects_expired(cutoff, record);
    }
    lemma_swept_count(records, cutoff);
}

proof fn lemma_swept_count(records: Seq<PresenceRecord>, cutoff: i64)
    ensures
        swept_count(records, cutoff) == expiring_between(records, i64::MIN as int, cutoff as int),
    decreases records.len(),
{
    reveal(Seq::filter);
    if records.len() > 0 {
        let front = records.drop_last();
        let last = records.last();
        assert(records =~= front.push(last));
        lemma_swept_count(front, cutoff);
        lemma_filter_push(front, last, selected_by(expiry_filter(cutoff)));
        law_expiry_filter_selects_expired(cutoff, last);
    }
}

/// A reset, the delete-many with the filter that `clear_database` builds,
/// removes every record and reports how many there were.
pub proof fn law_reset_removes_everything(records: Seq<PresenceRecord>)
    ensures
        delete_many(records, no_fields()).len() == 0,
        deleted_count(records, no_fields()) == records.len(),
{
    law_delete_many_removes_the_selected(records, no_fields());
    let after = delete_many(records, no_fields());
    if after.len() > 0 {
        assert(after.contains(after[0]));
        law_empty_filter_selects_all(after[0]);
    }
}

/// Sweeps with cutoffs that do not go back remove each record once: after a
/// sweep with `first`, a sweep with `second` reports the records that expire
/// from `first` on and before `second`, and leaves what a single sweep with
/// `second` would have left. A sweep repeated with the same cutoff removes
/// nothing.
pub proof fn law_later_sweep_removes_the_rest(
    records: Seq<PresenceRecord>,
    first: i64,
    second: i64,
)
    requires
        first <= second,
    ensures
        sweep(sweep(records, first), second) == sweep(records, second),
        swept_count(sweep(records, first), second) == expiring_between(
            records,
            first as int,
            second as int,
        ),
        swept_count(records, first) + swept_count(sweep(records, first), second) == swept_count(
            records,
            second,
        ),
        swept_count(sweep(records, first), first) == 0,
{
    lemma_later_sweep(records, first, second);
    lemma_later_sweep(records, first, first);
    lemma_nothing_expires_in_no_time(records, first as int);
}

proof fn lemma_nothing_expires_in_no_time(records: Seq<PresenceRecord>, at: int)
    ensures
        expiring_between(records, at, at) == 0,
    decreases records.len(),
{
    if records.len() > 0 {
        lemma_nothing_expires_in_no_time(records.drop_last(), at);
    }
}

proof fn lemma_later_sweep(records: Seq<PresenceRecord>, first: i64, second: i64)
    requires
        first <= second,
    ensures
        sweep(sweep(records, first), second) == sweep(records, second),
        swept_count(sweep(records, first), second) == expiring_between(
            records,
            first as int,
            second as int,
        ),
        swept_count(records, first) + swept_count(sweep(records, first), second) == swept_count(
            records,
            second,
        ),
    decreases records.len(),
{
    reveal(Seq::filter);
    if records.len() > 0 {
        let front = records.drop_last();
        let last = records.last();
        assert(records =~= front.push(last));
        lemma_later_sweep(front, first, second);
        law_expiry_filter_selects_expired(first, last);
        law_expiry_filter_selects_expired(second, last);
        lemma_filter_push(front, last, spared_by(expiry_filter(first)));
        lemma_filter_push(front, last, selected_by(expiry_filter(first)));
        lemma_filter_push(front, last, spared_by(expiry_filter(second)));
        lemma_filter_push(front, last, selected_by(expiry_filter(second)));
        lemma_filter_push(sweep(front, first), last, spared_by(expiry_filter(second)));
        lemma_filter_push(sweep(front, first), last, selected_by(expiry_filter(second)));
    }
}

} // verus!
