//! The store client: what is asked of the collection, and how its replies
//! are read.
//!
//! Every operation is one round trip. A method of [`DataBaseInterface`]
//! builds the request; the caller carries it to the store and hands the reply
//! to the matching reader. Nothing here waits, retries or locks: that one
//! record exists per identity rests on the store replacing or inserting in
//! one atomic step.

use crate::models::scalar::{Scalar, Timestamp};
use crate::models::user::{geo_point, point_fields, record_fields, LocalizedUser, User};
use crate::store_values::{
    boolean_value, document_model, document_value, insert_field, int32_value, new_document,
    no_fields, text_value, BsonModel, Fields,
};
use bson::Document;
use vstd::prelude::*;
use vstd::string::StringExecFns;

verus! {

/// Why the store could not serve a request.
#[derive(Clone, Copy, Debug, PartialEq, Eq, Structural)]
pub enum ErrorKind {
    /// The store could not be reached.
    Connection,
    /// The store refused or failed the request.
    Query,
    /// A reply could not be read as the record it should be.
    Decode,
}

/// A failure of the store, for the caller to surface.
#[derive(Clone, Debug)]
pub struct DatabaseError {
    pub kind: ErrorKind,
    pub message: String,
}

/// What heads the message of a failure of the given kind.
pub open spec fn message_prefix(kind: ErrorKind) -> Seq<char> {
    match kind {
        ErrorKind::Connection => "Database Error : "@,
        ErrorKind::Query => "Database Error : "@,
        ErrorKind::Decode => "BSON Error : "@,
    }
}

impl DatabaseError {
    /// A failure of the given kind; `detail` is what the driver said.
    pub fn new(kind: ErrorKind, detail: &str) -> (error: DatabaseError)
        ensures
            error.kind == kind,
            error.message@ == message_prefix(kind) + detail@,
    {
        let prefix = match kind {
            ErrorKind::Connection => "Database Error : ",
            ErrorKind::Query => "Database Error : ",
            ErrorKind::Decode => "BSON Error : ",
        };
        let mut message = String::from_str(prefix);
        message.append(detail);
        DatabaseError { kind, message }
    }

    /// Whether the same request may succeed if the caller sends it again:
    /// it may once the store is reached, and not where the request or a
    /// reply is at fault. The engine itself never retries.
    pub fn is_retryable(&self) -> (yes: bool)
        ensures
            yes == (self.kind == ErrorKind::Connection),
    {
        match self.kind {
            ErrorKind::Connection => true,
            ErrorKind::Query => false,
            ErrorKind::Decode => false,
        }
    }
}

/// How a publication changed the collection.
#[derive(Clone, Copy, Debug, PartialEq, Eq, Structural)]
pub enum ReplacedOrInserted {
    /// The identity had a record, which was replaced.
    Replaced,
    /// The identity had no record, and has one now.
    Inserted,
}

/// A request to replace the record that matches `filter` by `replacement`,
/// or to insert `replacement` if none matches, in one atomic step.
#[derive(Debug)]
pub struct ReplaceOrInsert {
    pub filter: Document,
    pub replacement: Document,
}

/// The filter that selects the record of one identity.
pub open spec fn identity_filter(identity_key: Seq<char>) -> Fields {
    map!["phone_number_hash"@ => BsonModel::Text(identity_key)]
}

/// The condition under which a record is visible to `requester`: its
/// visibility list holds that key.
pub open spec fn visibility_query(requester: Seq<char>) -> Fields {
    map!["contacts_phone_number_hash"@ => BsonModel::Text(requester)]
}

/// The parameters of the geospatial stage: nearest first on the sphere,
/// around the point at (`latitude`, `longitude`), no farther than
/// `max_distance` metres, among the records visible to `requester`; the
/// distance is written to the field `distance`.
pub open spec fn geo_near_fields(
    requester: Seq<char>,
    latitude: u64,
    longitude: u64,
    max_distance: u64,
) -> Fields {
    map![
        "near"@ => BsonModel::Embedded(point_fields(longitude, latitude)),
        "distanceField"@ => BsonModel::Text("distance"@),
        "maxDistance"@ => BsonModel::Double(max_distance),
        "query"@ => BsonModel::Embedded(visibility_query(requester)),
        "spherical"@ => BsonModel::Boolean(true),
    ]
}

/// The geospatial stage of the nearby pipeline.
pub open spec fn nearby_stage_fields(
    requester: Seq<char>,
    latitude: u64,
    longitude: u64,
    max_distance: u64,
) -> Fields {
    map![
        "$geoNear"@ => BsonModel::Embedded(
            geo_near_fields(requester, latitude, longitude, max_distance),
        ),
    ]
}

/// The fields that a match keeps: who, and how far.
pub open spec fn projected_fields() -> Fields {
    map![
        "phone_number_hash"@ => BsonModel::Int32(1),
        "distance"@ => BsonModel::Int32(1),
    ]
}

/// The projection stage of the nearby pipeline.
pub open spec fn projection_stage_fields() -> Fields {
    map!["$project"@ => BsonModel::Embedded(projected_fields())]
}

/// The filter that selects the records whose expiry lies before `cutoff`.
pub open spec fn expiry_filter(cutoff: i64) -> Fields {
    map![
        "available_until"@ => BsonModel::Embedded(
            map!["$lt"@ => BsonModel::DateTime(cutoff)],
        ),
    ]
}

/// The stage that finds the records visible to `phone_hash` within
/// `max_distance_m` metres of (`latitude`, `longitude`), nearest first.
pub fn create_nearby_stage(
    phone_hash: &String,
    latitude: &Scalar,
    longitude: &Scalar,
    max_distance_m: &Scalar,
) -> (stage: Document)
    ensures
        document_model(stage) == nearby_stage_fields(
            phone_hash@,
            latitude@,
            longitude@,
            max_distance_m@,
        ),
{
    let mut query = new_document();
    insert_field(&mut query, "contacts_phone_number_hash", text_value(phone_hash.as_str()));
    let mut geo_near = new_document();
    insert_field(&mut geo_near, "near", document_value(geo_point(latitude, longitude)));
    insert_field(&mut geo_near, "distanceField", text_value("distance"));
    insert_field(&mut geo_near, "maxDistance", max_distance_m.to_bson());
    insert_field(&mut geo_near, "query", document_value(query));
    insert_field(&mut geo_near, "spherical", boolean_value(true));
    let mut stage = new_document();
    insert_field(&mut stage, "$geoNear", document_value(geo_near));
    stage
}

/// The stage that strips a match down to its key and its distance, so that
/// the location of the matched party does not leave the store.
pub fn create_projection_stage() -> (stage: Document)
    ensures
        document_model(stage) == projection_stage_fields(),
{
    let mut kept = new_document();
    insert_field(&mut kept, "phone_number_hash", int32_value(1));
    insert_field(&mut kept, "distance", int32_value(1));
    let mut stage = new_document();
    insert_field(&mut stage, "$project", document_value(kept));
    stage
}

/// How far the reading of a nearby reply has come.
#[derive(Debug)]
pub enum NearbyProgress {
    /// The matches read so far; the stream has more to give.
    Pending(Vec<LocalizedUser>),
    /// The reply, complete or failed.
    Finished(Result<Vec<LocalizedUser>, DatabaseError>),
}

/// How far the reading of a nearby reply has come, as the contracts speak
/// of it.
pub enum Reading {
    Pending(Seq<LocalizedUser>),
    Finished(Result<Seq<LocalizedUser>, DatabaseError>),
}

impl View for NearbyProgress {
    type V = Reading;

    open spec fn view(&self) -> Reading {
        match *self {
            NearbyProgress::Pending(found) => Reading::Pending(found@),
            NearbyProgress::Finished(Ok(found)) => Reading::Finished(Ok(found@)),
            NearbyProgress::Finished(Err(error)) => Reading::Finished(Err(error)),
        }
    }
}

/// What one event of the stream of matches does to a reading: a match is
/// appended to those found so far, a failure ends the reading with that
/// failure, and the end of the stream (`None`) ends it with the matches as
/// they came.
pub open spec fn reading_step(
    found: Seq<LocalizedUser>,
    event: Option<Result<LocalizedUser, DatabaseError>>,
) -> Reading {
    match event {
        Some(Ok(user)) => Reading::Pending(found.push(user)),
        Some(Err(error)) => Reading::Finished(Err(error)),
        None => Reading::Finished(Ok(found)),
    }
}

/// The outcome of a publication, given whether the store replaced a record.
pub open spec fn outcome_of(replaced_one: bool) -> ReplacedOrInserted {
    if replaced_one {
        ReplacedOrInserted::Replaced
    } else {
        ReplacedOrInserted::Inserted
    }
}

/// The client of the collection of presence records: where the collection
/// is, what is asked of it, and how its replies are read.
#[derive(Clone, Debug)]
pub struct DataBaseInterface {
    /// Where the store listens.
    pub uri: String,
    /// The database that holds the collection.
    pub database: String,
    /// The collection that holds the records.
    pub collection: String,
}

impl DataBaseInterface {
    /// The client of the collection `available` of the database `nearby` on
    /// the local host.
    pub fn new() -> (interface: DataBaseInterface)
        ensures
            interface.uri@ == "mongodb://localhost:27017/"@,
            interface.database@ == "nearby"@,
            interface.collection@ == "available"@,
    {
        DataBaseInterface {
            uri: String::from_str("mongodb://localhost:27017/"),
            database: String::from_str("nearby"),
            collection: String::from_str("available"),
        }
    }

    /// The request that publishes `user`: replace the record of that
    /// identity, or insert this one if the identity has none.
    pub fn set_user_available(&self, user: &User) -> (request: ReplaceOrInsert)
        requires
            user@.is_publishable(),
        ensures
            document_model(request.filter) == identity_filter(user@.identity_key),
            document_model(request.replacement) == record_fields(user@),
    {
        let mut filter = new_document();
        insert_field(&mut filter, "phone_number_hash", text_value(user.phone_number_hash.as_str()));
        ReplaceOrInsert { filter, replacement: user.to_bson_document() }
    }

    /// Reads the reply to a publication. The store answers with the record
    /// it replaced, if there was one; a failure is handed on as it is.
    pub fn read_publication(reply: Result<Option<Document>, DatabaseError>) -> (outcome: Result<
        ReplacedOrInserted,
        DatabaseError,
    >)
        ensures
            reply matches Ok(previous) ==> outcome matches Ok(signal) && signal == outcome_of(
                previous is Some,
            ),
            reply matches Err(error) ==> outcome matches Err(same) && same == error,
    {
        match reply {
            Ok(Some(_)) => Ok(ReplacedOrInserted::Replaced),
            Ok(None) => Ok(ReplacedOrInserted::Inserted),
            Err(error) => Err(error),
        }
    }

    /// The pipeline that finds the contacts of `my_phone_hash` that are
    /// available within `max_distance_m` metres of (`my_latitude`,
    /// `my_longitude`): the geospatial stage, then the projection.
    pub fn get_contacts_available_nearby(
        &self,
        my_phone_hash: &String,
        my_latitude: &Scalar,
        my_longitude: &Scalar,
        max_distance_m: &Scalar,
    ) -> (pipeline: Vec<Document>)
        ensures
            pipeline@.len() == 2,
            document_model(pipeline@[0]) == nearby_stage_fields(
                my_phone_hash@,
                my_latitude@,
                my_longitude@,
                max_distance_m@,
            ),
            document_model(pipeline@[1]) == projection_stage_fields(),
    {
        let mut pipeline: Vec<Document> = Vec::with_capacity(2);
        pipeline.push(create_nearby_stage(my_phone_hash, my_latitude, my_longitude, max_distance_m));
        pipeline.push(create_projection_stage());
        pipeline
    }

    /// Takes the next event of the stream of matches, `None` at its end.
    /// The matches are kept as they come: none is dropped, added or moved.
    pub fn read_nearby(
        found: Vec<LocalizedUser>,
        event: Option<Result<LocalizedUser, DatabaseError>>,
    ) -> (progress: NearbyProgress)
        ensures
            progress@ == reading_step(found@, event),
    {
        match event {
            Some(Ok(user)) => {
                let mut found = found;
                found.push(user);
                NearbyProgress::Pending(found)
            },
            Some(Err(error)) => NearbyProgress::Finished(Err(error)),
            None => NearbyProgress::Finished(Ok(found)),
        }
    }

    /// The filter of the records that are no longer available at
    /// `date_time`: those whose expiry lies strictly before it.
    pub fn remove_available_until(&self, date_time: Timestamp) -> (filter: Document)
        ensures
            document_model(filter) == expiry_filter(date_time@),
    {
        let mut before = new_document();
        insert_field(&mut before, "$lt", date_time.to_bson());
        let mut filter = new_document();
        insert_field(&mut filter, "available_until", document_value(before));
        filter
    }

    /// Reads the reply to a removal: the count of the records removed. The
    /// driver counts in a signed integer; a negative count cannot be read
    /// and is a failure of kind [`ErrorKind::Decode`]. A failure of the store
    /// is handed on as it is.
    pub fn read_removal(reply: Result<i64, DatabaseError>) -> (outcome: Result<u64, DatabaseError>)
        ensures
            reply matches Ok(count) ==> (count >= 0 ==> (outcome matches Ok(removed) && removed
                == count)),
            reply matches Ok(count) ==> (count < 0 ==> (outcome matches Err(failure)
                && failure.kind == ErrorKind::Decode && failure.message@ == message_prefix(
                ErrorKind::Decode,
            ) + "negative count of removed records"@)),
            reply matches Err(error) ==> outcome matches Err(same) && same == error,
    {
        match reply {
            Ok(count) => {
                if count >= 0 {
                    Ok(count as u64)
                } else {
                    Err(DatabaseError::new(ErrorKind::Decode, "negative count of removed records"))
                }
            },
            Err(error) => Err(error),
        }
    }

    /// The filter that selects every record, for a maintenance reset.
    pub fn clear_database(&self) -> (filter: Document)
        ensures
            document_model(filter) == no_fields(),
    {
        new_document()
    }
}

/// What the reading of a whole stream comes to: the events of `stream` are
/// taken in turn by [`reading_step`], and then its end.
pub open spec fn reading_of(
    found: Seq<LocalizedUser>,
    stream: Seq<Result<LocalizedUser, DatabaseError>>,
) -> Result<Seq<LocalizedUser>, DatabaseError>
    decreases stream.len(),
{
    if stream.len() == 0 {
        Ok(found)
    } else {
        match reading_step(found, Some(stream[0])) {
            Reading::Pending(more) => reading_of(more, stream.drop_first()),
            Reading::Finished(reply) => reply,
        }
    }
}

/// The matches that a stream without failure holds.
pub open spec fn matches_of(stream: Seq<Result<LocalizedUser, DatabaseError>>) -> Seq<
    LocalizedUser,
> {
    stream.map_values(|item: Result<LocalizedUser, DatabaseError>| item->Ok_0)
}

/// A reply is read verbatim. A stream without failure gives its matches, all
/// of them and in the order of the stream, an empty stream the empty list;
/// a stream with a failure gives its first failure.
pub proof fn law_reply_is_read_verbatim(stream: Seq<Result<LocalizedUser, DatabaseError>>)
    ensures
        (forall|i: int| 0 <= i < stream.len() ==> #[trigger] stream[i] is Ok) ==> reading_of(
            Seq::empty(),
            stream,
        ) == Ok::<Seq<LocalizedUser>, DatabaseError>(matches_of(stream)),
        forall|at: int|
            0 <= at < stream.len() && #[trigger] stream[at] is Err && (forall|i: int|
                0 <= i < at ==> #[trigger] stream[i] is Ok) ==> reading_of(Seq::empty(), stream)
                == Err::<Seq<LocalizedUser>, DatabaseError>(stream[at]->Err_0),
{
    lemma_reading_from(Seq::empty(), stream);
    assert(Seq::<LocalizedUser>::empty() + matches_of(stream) =~= matches_of(stream));
}

proof fn lemma_reading_from(
    found: Seq<LocalizedUser>,
    stream: Seq<Result<LocalizedUser, DatabaseError>>,
)
    ensures
        (forall|i: int| 0 <= i < stream.len() ==> #[trigger] stream[i] is Ok) ==> reading_of(
            found,
            stream,
        ) == Ok::<Seq<LocalizedUser>, DatabaseError>(found + matches_of(stream)),
        forall|at: int|
            0 <= at < stream.len() && #[trigger] stream[at] is Err && (forall|i: int|
                0 <= i < at ==> #[trigger] stream[i] is Ok) ==> reading_of(found, stream)
                == Err::<Seq<LocalizedUser>, DatabaseError>(stream[at]->Err_0),
    decreases stream.len(),
{
    if stream.len() == 0 {
        assert(found + matches_of(stream) =~= found);
    } else {
        let rest = stream.drop_first();
        match stream[0] {
            Ok(user) => {
                lemma_reading_from(found.push(user), rest);
                if forall|i: int| 0 <= i < stream.len() ==> #[trigger] stream[i] is Ok {
                    assert forall|i: int| 0 <= i < rest.len() implies #[trigger] rest[i] is Ok by {
                        assert(stream[i + 1] is Ok);
                    }
                    assert(found.push(user) + matches_of(rest) =~= found + matches_of(stream));
                }
                assert forall|at: int|
                    0 <= at < stream.len() && #[trigger] stream[at] is Err && (forall|i: int|
                        0 <= i < at ==> #[trigger] stream[i] is Ok) implies reading_of(
                    found,
                    stream,
                ) == Err::<Seq<LocalizedUser>, DatabaseError>(stream[at]->Err_0) by {
                    assert(at > 0);
                    assert(rest[at - 1] == stream[at]);
                    assert forall|i: int| 0 <= i < at - 1 implies #[trigger] rest[i] is Ok by {
                        assert(stream[i + 1] is Ok);
                    }
                }
            },
            Err(error) => {
                assert forall|at: int|
                    0 <= at < stream.len() && #[trigger] stream[at] is Err && (forall|i: int|
                        0 <= i < at ==> #[trigger] stream[i] is Ok) implies at == 0 by {
                    if at > 0 {
                        assert(stream[0] is Ok);
                    }
                }
            },
        }
    }
}

} // verus!
