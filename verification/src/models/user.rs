//! The presence record and its stored form.
//!
//! A record says: this identity is available, here, until this time, and
//! these identities may find it. In memory a location is written latitude
//! first; the store's geospatial index takes longitude first. [`geo_point`]
//! is the one place where the order turns.

use crate::models::scalar::{Scalar, Timestamp};
use crate::store_values::{
    array_value, bson_model, document_model, document_value, insert_field, models_of,
    new_document, text_value, BsonModel, Fields,
};
use bson::{Bson, Document};
use vstd::prelude::*;

verus! {

/// A presence record, as the contracts speak of it.
pub struct PresenceRecord {
    /// The hashed identifier of the person; at most one record per key.
    pub identity_key: Seq<char>,
    /// Latitude in decimal degrees, by the bit pattern of the double.
    pub latitude: u64,
    /// Longitude in decimal degrees, by the bit pattern of the double.
    pub longitude: u64,
    /// The instant, in milliseconds since the Unix epoch, after which the
    /// record no longer counts.
    pub expires_at: i64,
    /// The identities that may find this record. Being listed here says
    /// nothing about what the listed identity lets this one see.
    pub visible_to: Seq<Seq<char>>,
}

impl PresenceRecord {
    /// What the store asks of a record before it is published: a key that
    /// is not empty. That the coordinates are finite is part of their type.
    pub open spec fn is_publishable(self) -> bool {
        self.identity_key.len() > 0
    }
}

/// A match of a nearby query, as the contracts speak of it: who, and how far
/// away in metres, by the bit pattern of the double.
pub struct Match {
    pub identity_key: Seq<char>,
    pub distance: u64,
}

/// A GeoJSON point: longitude first, then latitude.
pub open spec fn point_fields(longitude: u64, latitude: u64) -> Fields {
    map![
        "type"@ => BsonModel::Text("Point"@),
        "coordinates"@ => BsonModel::Array(
            seq![BsonModel::Double(longitude), BsonModel::Double(latitude)],
        ),
    ]
}

/// The identity keys as BSON strings.
pub open spec fn text_models(keys: Seq<Seq<char>>) -> Seq<BsonModel> {
    keys.map_values(|key: Seq<char>| BsonModel::Text(key))
}

/// The stored form of a record, under the field names of the collection.
pub open spec fn record_fields(record: PresenceRecord) -> Fields {
    map![
        "phone_number_hash"@ => BsonModel::Text(record.identity_key),
        "location"@ => BsonModel::Embedded(point_fields(record.longitude, record.latitude)),
        "available_until"@ => BsonModel::DateTime(record.expires_at),
        "contacts_phone_number_hash"@ => BsonModel::Array(text_models(record.visible_to)),
    ]
}

/// The names of the fields of a stored record differ from one another.
pub proof fn lemma_record_field_names()
    ensures
        "phone_number_hash"@ != "location"@,
        "phone_number_hash"@ != "available_until"@,
        "phone_number_hash"@ != "contacts_phone_number_hash"@,
        "location"@ != "available_until"@,
        "location"@ != "contacts_phone_number_hash"@,
        "available_until"@ != "contacts_phone_number_hash"@,
{
    reveal_strlit("phone_number_hash");
    reveal_strlit("location");
    reveal_strlit("available_until");
    reveal_strlit("contacts_phone_number_hash");
    assert("phone_number_hash"@.len() == 17);
    assert("location"@.len() == 8);
    assert("available_until"@.len() == 15);
    assert("contacts_phone_number_hash"@.len() == 26);
}

/// The record that a stored form holds: the reading that goes with
/// [`record_fields`]. Of the coordinates, the first is the longitude.
pub open spec fn record_of(fields: Fields) -> PresenceRecord {
    let coordinates = fields["location"@]->Embedded_0["coordinates"@]->Array_0;
    PresenceRecord {
        identity_key: fields["phone_number_hash"@]->Text_0,
        latitude: coordinates[1]->Double_0,
        longitude: coordinates[0]->Double_0,
        expires_at: fields["available_until"@]->DateTime_0,
        visible_to: fields["contacts_phone_number_hash"@]->Array_0.map_values(
            |key: BsonModel| key->Text_0,
        ),
    }
}

/// The stored form loses nothing and transposes nothing: read back, it gives
/// the record it was made from. So two records with the same stored form are
/// the same record.
pub proof fn law_stored_form_round_trips(record: PresenceRecord)
    ensures
        record_of(record_fields(record)) == record,
{
    lemma_record_field_names();
    reveal_strlit("type");
    reveal_strlit("coordinates");
    assert("type"@.len() == 4);
    assert("coordinates"@.len() == 11);
    let fields = record_fields(record);
    assert(fields["location"@] == BsonModel::Embedded(
        point_fields(record.longitude, record.latitude),
    ));
    assert(fields["contacts_phone_number_hash"@] == BsonModel::Array(
        text_models(record.visible_to),
    ));
    assert(record_of(fields).visible_to =~= record.visible_to);
}

/// The views of the strings of `keys`.
pub open spec fn key_views(keys: Seq<String>) -> Seq<Seq<char>> {
    keys.map_values(|key: String| key@)
}

/// A presence announcement.
#[derive(Clone, Debug)]
pub struct User {
    pub phone_number_hash: String,
    pub latitude: Scalar,
    pub longitude: Scalar,
    pub available_until: Timestamp,
    pub contacts_phone_number_hash: Vec<String>,
}

impl View for User {
    type V = PresenceRecord;

    open spec fn view(&self) -> PresenceRecord {
        PresenceRecord {
            identity_key: self.phone_number_hash@,
            latitude: self.latitude@,
            longitude: self.longitude@,
            expires_at: self.available_until@,
            visible_to: key_views(self.contacts_phone_number_hash@),
        }
    }
}

/// One answer of a nearby query: who, and how far away in metres.
#[derive(Clone, Debug)]
pub struct LocalizedUser {
    pub phone_number_hash: String,
    pub distance: Scalar,
}

impl View for LocalizedUser {
    type V = Match;

    open spec fn view(&self) -> Match {
        Match { identity_key: self.phone_number_hash@, distance: self.distance@ }
    }
}

/// The point at (`latitude`, `longitude`) in the coordinate order of the
/// store: longitude first.
pub fn geo_point(latitude: &Scalar, longitude: &Scalar) -> (point: Document)
    ensures
        document_model(point) == point_fields(longitude@, latitude@),
{
    let mut coordinates: Vec<Bson> = Vec::with_capacity(2);
    coordinates.push(longitude.to_bson());
    coordinates.push(latitude.to_bson());
    assert(models_of(coordinates@) =~= seq![
        BsonModel::Double(longitude@),
        BsonModel::Double(latitude@),
    ]);
    let mut point = new_document();
    insert_field(&mut point, "type", text_value("Point"));
    insert_field(&mut point, "coordinates", array_value(coordinates));
    point
}

/// The identity keys as a BSON array of strings, in their order.
pub fn keys_to_bson(keys: &Vec<String>) -> (values: Vec<Bson>)
    ensures
        models_of(values@) == text_models(key_views(keys@)),
{
    let mut values: Vec<Bson> = Vec::with_capacity(keys.len());
    let mut at: usize = 0;
    while at < keys.len()
        invariant
            at <= keys.len(),
            values@.len() == at,
            forall|i: int|
                0 <= i < at ==> bson_model(#[trigger] values@[i]) == BsonModel::Text(keys@[i]@),
        decreases keys.len() - at,
    {
        values.push(text_value(keys[at].as_str()));
        at += 1;
    }
    assert(models_of(values@) =~= text_models(key_views(keys@)));
    values
}

impl User {
    /// Whether the record may be published: its key is not empty.
    pub fn is_publishable(&self) -> (yes: bool)
        ensures
            yes == self@.is_publishable(),
    {
        !self.phone_number_hash.as_str().is_empty()
    }

    /// The record in its stored form: the key, the location as a GeoJSON
    /// point, the expiry as a UTC datetime, and the visibility list.
    pub fn to_bson_document(&self) -> (document: Document)
        ensures
            document_model(document) == record_fields(self@),
    {
        let contacts_phone = keys_to_bson(&self.contacts_phone_number_hash);
        let location = geo_point(&self.latitude, &self.longitude);
        let mut document = new_document();
        insert_field(
            &mut document,
            "phone_number_hash",
            text_value(self.phone_number_hash.as_str()),
        );
        insert_field(&mut document, "location", document_value(location));
        insert_field(&mut document, "available_until", self.available_until.to_bson());
        insert_field(&mut document, "contacts_phone_number_hash", array_value(contacts_phone));
        document
    }
}

} // verus!
