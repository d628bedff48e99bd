//! The BSON values that travel to and from the store.
//!
//! `bson::Bson` and `bson::Document` are opaque here. What they hold is named
//! by [`bson_model`] and [`document_model`]; the functions of this module are
//! the only ones that build or open such a value, and their contracts are
//! taken on trust from the `bson` and `chrono` crates.

use bson::{Bson, Document};
use vstd::prelude::*;

verus! {

#[verifier::external_type_specification]
#[verifier::external_body]
pub struct ExBson(bson::Bson);

#[verifier::external_type_specification]
#[verifier::external_body]
pub struct ExDocument(bson::Document);

/// What a BSON value holds, as far as this engine writes or reads it.
pub enum BsonModel {
    /// A double, by its IEEE 754 bit pattern.
    Double(u64),
    /// A UTF-8 string.
    Text(Seq<char>),
    /// An array, in order.
    Array(Seq<BsonModel>),
    /// An embedded document: its fields by name.
    Embedded(Map<Seq<char>, BsonModel>),
    /// A boolean.
    Boolean(bool),
    /// A 32-bit integer.
    Int32(i32),
    /// A UTC instant, in milliseconds since the Unix epoch.
    DateTime(i64),
    /// A value of any other kind.
    Other,
}

/// The fields of a document, by name.
pub type Fields = Map<Seq<char>, BsonModel>;

/// What `value` holds.
pub uninterp spec fn bson_model(value: Bson) -> BsonModel;

/// The fields of `document`. The order in which they were inserted is not
/// part of the model.
pub uninterp spec fn document_model(document: Document) -> Map<Seq<char>, BsonModel>;

/// Whether chrono has a `DateTime<Utc>` for the instant `millis` milliseconds
/// after the Unix epoch.
pub uninterp spec fn chrono_represents(millis: i64) -> bool;

/// The first and the last millisecond of the years 0000 to 9999, the span of
/// RFC 3339. chrono reaches some 262,000 years to either side of the epoch.
pub const FIRST_COMMON_MILLIS: i64 = -62_167_219_200_000;

pub const LAST_COMMON_MILLIS: i64 = 253_402_300_799_999;

/// The document without fields.
pub open spec fn no_fields() -> Fields {
    Map::empty()
}

/// What each value of `items` holds.
pub open spec fn models_of(items: Seq<Bson>) -> Seq<BsonModel> {
    items.map_values(|item: Bson| bson_model(item))
}

/// `Document::new`: a document without fields.
#[verifier::external_body]
pub(crate) fn new_document() -> (document: Document)
    ensures
        document_model(document) == no_fields(),
{
    Document::new()
}

/// `Document::insert`: `key` now holds `value`, whether or not the document
/// had that key; the other fields stay.
#[verifier::external_body]
pub(crate) fn insert_field(document: &mut Document, key: &str, value: Bson)
    ensures
        document_model(*final(document)) == document_model(*old(document)).insert(
            key@,
            bson_model(value),
        ),
{
    document.insert(key, value);
}

/// `Bson::from` on a string slice: a BSON string of the same characters.
#[verifier::external_body]
pub(crate) fn text_value(text: &str) -> (value: Bson)
    ensures
        bson_model(value) == BsonModel::Text(text@),
{
    Bson::from(text)
}

/// `Bson::Array`: a BSON array of the given values, in their order.
#[verifier::external_body]
pub(crate) fn array_value(items: Vec<Bson>) -> (value: Bson)
    ensures
        bson_model(value) == BsonModel::Array(models_of(items@)),
{
    Bson::Array(items)
}

/// `Bson::Document`: the document as an embedded value.
#[verifier::external_body]
pub(crate) fn document_value(document: Document) -> (value: Bson)
    ensures
        bson_model(value) == BsonModel::Embedded(document_model(document)),
{
    Bson::Document(document)
}

/// `Bson::from` on a `bool`: a BSON boolean.
#[verifier::external_body]
pub(crate) fn boolean_value(flag: bool) -> (value: Bson)
    ensures
        bson_model(value) == BsonModel::Boolean(flag),
{
    Bson::from(flag)
}

/// `Bson::from` on an `i32`: a 32-bit BSON integer.
#[verifier::external_body]
pub(crate) fn int32_value(number: i32) -> (value: Bson)
    ensures
        bson_model(value) == BsonModel::Int32(number),
{
    Bson::from(number)
}

/// chrono's `DateTime::from_timestamp_millis`, wrapped in `Bson::DateTime`.
/// chrono answers `None` outside its range and otherwise gives the instant
/// whose `timestamp_millis` is `millis` again; the years 0000 to 9999 lie
/// well inside that range.
#[verifier::external_body]
pub(crate) fn datetime_value(millis: i64) -> (value: Option<Bson>)
    ensures
        value is Some <==> chrono_represents(millis),
        value matches Some(instant) ==> bson_model(instant) == BsonModel::DateTime(millis),
        FIRST_COMMON_MILLIS <= millis <= LAST_COMMON_MILLIS ==> value is Some,
{
    match chrono::DateTime::from_timestamp_millis(millis) {
        Some(instant) => Some(Bson::DateTime(instant)),
        None => None,
    }
}

/// `Bson::as_f64`, then `to_bits`: the bit pattern of a double, `None` for a
/// value of any other kind.
#[verifier::external_body]
pub(crate) fn double_bits(value: &Bson) -> (bits: Option<u64>)
    ensures
        bson_model(*value) matches BsonModel::Double(pattern) ==> bits == Some(pattern),
        !(bson_model(*value) is Double) ==> bits is None,
{
    match value.as_f64() {
        Some(number) => Some(number.to_bits()),
        None => None,
    }
}

/// `Clone::clone` on a `Bson`: a value that holds the same.
pub assume_specification[ <bson::Bson as Clone>::clone ](value: &bson::Bson) -> (copy: bson::Bson)
    ensures
        bson_model(copy) == bson_model(*value),
;

} // verus!
