//! Publications: the store's replace-or-insert, and what it keeps true.

use crate::database::collection::filters::{law_identity_filter_selects_by_key, selects};
use crate::database::database_interface::{identity_filter, outcome_of, ReplacedOrInserted};
use crate::models::user::PresenceRecord;
use crate::store_values::Fields;
use vstd::prelude::*;

verus! {

/// The invariant of the collection: no two records share an identity key.
pub open spec fn at_most_one_per_identity(records: Seq<PresenceRecord>) -> bool {
    forall|i: int, j: int|
        0 <= i < j < records.len() ==> records[i].identity_key != records[j].identity_key
}

/// Whether the collection holds a record of the identity.
pub open spec fn has_identity(records: Seq<PresenceRecord>, identity_key: Seq<char>) -> bool {
    exists|at: int| 0 <= at < records.len() && #[trigger] records[at].identity_key == identity_key
}

/// Whether `record` is in the collection and is the only record of its
/// identity there.
pub open spec fn holds_exactly(records: Seq<PresenceRecord>, record: PresenceRecord) -> bool {
    exists|at: int|
        0 <= at < records.len() && #[trigger] records[at] == record && forall|other: int|
            0 <= other < records.len() && #[trigger] records[other].identity_key
                == record.identity_key ==> other == at
}

/// Whether `filter` selects a record of the collection.
pub open spec fn selects_some(records: Seq<PresenceRecord>, filter: Fields) -> bool {
    exists|at: int| 0 <= at < records.len() && selects(filter, #[trigger] records[at])
}

/// The store's atomic replace-or-insert. If `filter` selects a record, one
/// such record gives way to `replacement` and is handed back; which one, if
/// there are several, is the store's choice. Otherwise `replacement` joins
/// the collection.
pub open spec fn replace_or_insert(
    records: Seq<PresenceRecord>,
    filter: Fields,
    replacement: PresenceRecord,
) -> (Seq<PresenceRecord>, Option<PresenceRecord>) {
    if selects_some(records, filter) {
        let at = choose|at: int| 0 <= at < records.len() && selects(filter, #[trigger] records[at]);
        (records.update(at, replacement), Some(records[at]))
    } else {
        (records.push(replacement), None)
    }
}

/// A publication, end to end: the request of
/// `DataBaseInterface::set_user_available` carried out by the store, and the
/// reply read by `DataBaseInterface::read_publication`.
pub open spec fn publish(records: Seq<PresenceRecord>, record: PresenceRecord) -> (
    Seq<PresenceRecord>,
    ReplacedOrInserted,
) {
    let (after, previous) = replace_or_insert(
        records,
        identity_filter(record.identity_key),
        record,
    );
    (after, outcome_of(previous is Some))
}

/// The collection after the publications of `payloads`, one after the other.
pub open spec fn publish_all(
    records: Seq<PresenceRecord>,
    payloads: Seq<PresenceRecord>,
) -> Seq<PresenceRecord>
    decreases payloads.len(),
{
    if payloads.len() == 0 {
        records
    } else {
        publish(publish_all(records, payloads.drop_last()), payloads.last()).0
    }
}

/// A publication leaves the identity with exactly one record, the one
/// published, and every other identity with what it had; the invariant of
/// the collection holds again. It answers `Replaced` if the identity had a
/// record and `Inserted` if it had none.
pub proof fn law_publish_upserts(records: Seq<PresenceRecord>, record: PresenceRecord)
    requires
        at_most_one_per_identity(records),
    ensures
        at_most_one_per_identity(publish(records, record).0),
        holds_exactly(publish(records, record).0, record),
        forall|other: PresenceRecord|
            other.identity_key != record.identity_key ==> (publish(records, record).0.contains(
                other,
            ) <==> records.contains(other)),
        has_identity(records, record.identity_key) ==> publish(records, record).1
            == ReplacedOrInserted::Replaced && publish(records, record).0.len() == records.len(),
        !has_identity(records, record.identity_key) ==> publish(records, record).1
            == ReplacedOrInserted::Inserted && publish(records, record).0.len() == records.len()
            + 1,
{
    let filter = identity_filter(record.identity_key);
    let after = publish(records, record).0;
    assert forall|at: int| 0 <= at < records.len() implies (selects(filter, #[trigger] records[at])
        <==> records[at].identity_key == record.identity_key) by {
        law_identity_filter_selects_by_key(record.identity_key, records[at]);
    }
    if selects_some(records, filter) {
        let at = choose|at: int| 0 <= at < records.len() && selects(filter, #[trigger] records[at]);
        assert(records[at].identity_key == record.identity_key);
        assert(has_identity(records, record.identity_key));
        assert(after == records.update(at, record));
        assert(after[at] == record);
        assert forall|other: PresenceRecord|
            other.identity_key != record.identity_key implies (after.contains(other)
            <==> records.contains(other)) by {
            if after.contains(other) {
                let i = choose|i: int| 0 <= i < after.len() && after[i] == other;
                assert(records[i] == other);
            }
            if records.contains(other) {
                let i = choose|i: int| 0 <= i < records.len() && records[i] == other;
                assert(after[i] == other);
            }
        }
    } else {
        assert(!has_identity(records, record.identity_key)) by {
            if has_identity(records, record.identity_key) {
                let at = choose|at: int|
                    0 <= at < records.len() && #[trigger] records[at].identity_key
                        == record.identity_key;
                assert(selects(filter, records[at]));
            }
        }
        assert(after == records.push(record));
        assert(after[records.len() as int] == record);
        assert forall|other: PresenceRecord|
            other.identity_key != record.identity_key implies (after.contains(other)
            <==> records.contains(other)) by {
            if after.contains(other) {
                let i = choose|i: int| 0 <= i < after.len() && after[i] == other;
                assert(records[i] == other);
            }
            if records.contains(other) {
                let i = choose|i: int| 0 <= i < records.len() && records[i] == other;
                assert(after[i] == other);
            }
        }
    }
}

/// After any number of publications for one identity, one after the other,
/// the collection holds exactly one record of that identity, and it is the
/// payload of the last publication.
pub proof fn law_upsert_uniqueness(
    records: Seq<PresenceRecord>,
    payloads: Seq<PresenceRecord>,
    identity_key: Seq<char>,
)
    requires
        at_most_one_per_identity(records),
        payloads.len() > 0,
        forall|i: int| 0 <= i < payloads.len() ==> #[trigger] payloads[i].identity_key == identity_key,
    ensures
        at_most_one_per_identity(publish_all(records, payloads)),
        holds_exactly(publish_all(records, payloads), payloads.last()),
{
    let earlier = payloads.drop_last();
    law_publications_keep_the_invariant(records, earlier);
    law_publish_upserts(publish_all(records, earlier), payloads.last());
}

/// Publications, one after the other, keep the invariant of the collection.
pub proof fn law_publications_keep_the_invariant(
    records: Seq<PresenceRecord>,
    payloads: Seq<PresenceRecord>,
)
    requires
        at_most_one_per_identity(records),
    ensures
        at_most_one_per_identity(publish_all(records, payloads)),
    decreases payloads.len(),
{
    if payloads.len() > 0 {
        law_publications_keep_the_invariant(records, payloads.drop_last());
        law_publish_upserts(publish_all(records, payloads.drop_last()), payloads.last());
    }
}

/// The answer to the publication number `turn` of `payloads`, counted from
/// zero.
pub open spec fn signal_at(
    records: Seq<PresenceRecord>,
    payloads: Seq<PresenceRecord>,
    turn: int,
) -> ReplacedOrInserted {
    publish(publish_all(records, payloads.take(turn)), payloads[turn]).1
}

/// Of the publications for an identity that has no record yet, the first
/// answers `Inserted` and every later one `Replaced`.
pub proof fn law_first_inserts_then_replaces(
    records: Seq<PresenceRecord>,
    payloads: Seq<PresenceRecord>,
    identity_key: Seq<char>,
    turn: int,
)
    requires
        at_most_one_per_identity(records),
        !has_identity(records, identity_key),
        forall|i: int| 0 <= i < payloads.len() ==> #[trigger] payloads[i].identity_key == identity_key,
        0 <= turn < payloads.len(),
    ensures
        turn == 0 ==> signal_at(records, payloads, turn) == ReplacedOrInserted::Inserted,
        turn > 0 ==> signal_at(records, payloads, turn) == ReplacedOrInserted::Replaced,
{
    let before = payloads.take(turn);
    let so_far = publish_all(records, before);
    law_publications_keep_the_invariant(records, before);
    law_publish_upserts(so_far, payloads[turn]);
    if turn == 0 {
        assert(so_far == records);
    } else {
        law_upsert_uniqueness(records, before, identity_key);
        let at = choose|at: int|
            0 <= at < so_far.len() && #[trigger] so_far[at] == before.last() && forall|other: int|
                0 <= other < so_far.len() && #[trigger] so_far[other].identity_key
                    == before.last().identity_key ==> other == at;
        assert(so_far[at].identity_key == identity_key);
        assert(has_identity(so_far, payloads[turn].identity_key));
    }
}

} // verus!
