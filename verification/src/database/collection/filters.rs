//! Filters: which records a filter selects.
//!
//! A filter is evaluated on the stored form of a record, by the rules of the
//! store's query language as far as this engine speaks it: a plain value
//! asks for equality, or for membership where the field is an array; `$lt`
//! asks for an earlier date.

use crate::database::database_interface::{expiry_filter, identity_filter, visibility_query};
use crate::models::user::{lemma_record_field_names, record_fields, text_models, PresenceRecord};
use crate::store_values::{no_fields, BsonModel, Fields};
use vstd::prelude::*;

verus! {

/// Whether `condition` is a comparison with `$lt`.
pub open spec fn is_before(condition: BsonModel) -> bool {
    condition matches BsonModel::Embedded(operators) && operators.contains_key("$lt"@)
}

/// Whether a field that holds `value` meets `condition`.
pub open spec fn satisfies(value: BsonModel, condition: BsonModel) -> bool {
    if is_before(condition) {
        &&& value matches BsonModel::DateTime(instant)
        &&& condition->Embedded_0["$lt"@] matches BsonModel::DateTime(bound)
        &&& instant < bound
    } else {
        ||| value == condition
        ||| value matches BsonModel::Array(items) && items.contains(condition)
    }
}

/// Whether `document` meets every condition of `filter`.
pub open spec fn meets(document: Fields, filter: Fields) -> bool {
    forall|field: Seq<char>| #[trigger]
        filter.contains_key(field) ==> document.contains_key(field) && satisfies(
            document[field],
            filter[field],
        )
}

/// Whether `filter` selects `record`.
pub open spec fn selects(filter: Fields, record: PresenceRecord) -> bool {
    meets(record_fields(record), filter)
}

/// The filter of an identity selects the records of that identity, and no
/// others.
pub proof fn law_identity_filter_selects_by_key(identity_key: Seq<char>, record: PresenceRecord)
    ensures
        selects(identity_filter(identity_key), record) <==> record.identity_key == identity_key,
{
    lemma_record_field_names();
    assert(identity_filter(identity_key).contains_key("phone_number_hash"@));
}

/// The visibility query of a requester selects the records whose visibility
/// list holds the requester, and no others.
pub proof fn law_visibility_query_selects_listed(requester: Seq<char>, record: PresenceRecord)
    ensures
        selects(visibility_query(requester), record) <==> record.visible_to.contains(requester),
{
    lemma_record_field_names();
    let listed = text_models(record.visible_to);
    assert(visibility_query(requester).contains_key("contacts_phone_number_hash"@));
    if record.visible_to.contains(requester) {
        let at = choose|i: int| 0 <= i < record.visible_to.len() && record.visible_to[i] == requester;
        assert(listed[at] == BsonModel::Text(requester));
    }
    if listed.contains(BsonModel::Text(requester)) {
        let at = choose|i: int| 0 <= i < listed.len() && listed[i] == BsonModel::Text(requester);
        assert(record.visible_to[at] == requester);
    }
}

/// The expiry filter of a cutoff selects the records that expire strictly
/// before it, and no others.
pub proof fn law_expiry_filter_selects_expired(cutoff: i64, record: PresenceRecord)
    ensures
        selects(expiry_filter(cutoff), record) <==> record.expires_at < cutoff,
{
    lemma_record_field_names();
    assert(expiry_filter(cutoff).contains_key("available_until"@));
}

/// The filter without conditions selects every record.
pub proof fn law_empty_filter_selects_all(record: PresenceRecord)
    ensures
        selects(no_fields(), record),
{
}

} // verus!
