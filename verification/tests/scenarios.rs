// The scenarios of the engine, played against a stand-in for the store: a
// list of documents in memory that carries out the requests of the library
// as the store would. The distance is the great-circle distance on a sphere
// of the radius that the store uses.

use bson::{Bson, Document};
use chrono::DateTime;
use nearby::database::available_users_cleaner::{AvailableUserCleaner, SweepReport};
use nearby::database::database_interface::{
    DataBaseInterface, DatabaseError, ErrorKind, NearbyProgress, ReplacedOrInserted,
};
use nearby::models::scalar::{Scalar, Timestamp};
use nearby::models::user::{LocalizedUser, User};

struct Store {
    records: Vec<Document>,
}

fn satisfies(value: &Bson, condition: &Bson) -> bool {
    if let Bson::Document(operators) = condition {
        if let Some(bound) = operators.get("$lt") {
            return match (value, bound) {
                (Bson::DateTime(instant), Bson::DateTime(limit)) => instant < limit,
                _ => false,
            };
        }
    }
    if value == condition {
        return true;
    }
    match value {
        Bson::Array(items) => items.contains(condition),
        _ => false,
    }
}

fn selects(filter: &Document, record: &Document) -> bool {
    filter.iter().all(|(field, condition)| match record.get(field) {
        Some(value) => satisfies(value, condition),
        None => false,
    })
}

fn coordinates(point: &Document) -> (f64, f64) {
    let pair = point.get_array("coordinates").expect("coordinates");
    let longitude = pair[0].as_f64().expect("a longitude");
    let latitude = pair[1].as_f64().expect("a latitude");
    (longitude, latitude)
}

fn metres(from: &Document, to: &Document) -> f64 {
    let (from_longitude, from_latitude) = coordinates(from);
    let (to_longitude, to_latitude) = coordinates(to);
    let from_latitude = from_latitude.to_radians();
    let to_latitude = to_latitude.to_radians();
    let half_up = ((to_latitude - from_latitude) / 2.0).sin();
    let half_across = ((to_longitude - from_longitude).to_radians() / 2.0).sin();
    let chord =
        half_up * half_up + from_latitude.cos() * to_latitude.cos() * half_across * half_across;
    6_378_100.0 * 2.0 * chord.sqrt().asin()
}

impl Store {
    fn new() -> Store {
        Store { records: Vec::new() }
    }

    fn replace_or_insert(&mut self, filter: &Document, replacement: Document) -> Option<Document> {
        match self.records.iter().position(|record| selects(filter, record)) {
            Some(at) => Some(std::mem::replace(&mut self.records[at], replacement)),
            None => {
                self.records.push(replacement);
                None
            },
        }
    }

    fn delete_many(&mut self, filter: &Document) -> i64 {
        let before = self.records.len();
        self.records.retain(|record| !selects(filter, record));
        (before - self.records.len()) as i64
    }

    fn aggregate(&self, pipeline: &[Document]) -> Vec<Document> {
        assert_eq!(pipeline.len(), 2);
        let geo_near = pipeline[0].get_document("$geoNear").expect("a geospatial stage");
        let kept = pipeline[1].get_document("$project").expect("a projection");
        assert_eq!(geo_near.get_bool("spherical"), Ok(true));
        let near = geo_near.get_document("near").expect("a point");
        assert_eq!(near.get_str("type"), Ok("Point"));
        let limit = geo_near.get_f64("maxDistance").expect("a limit");
        let query = geo_near.get_document("query").expect("a query");
        let distance_field = geo_near.get_str("distanceField").expect("a field name");

        let mut answers: Vec<(f64, Document)> = Vec::new();
        for record in &self.records {
            let location = record.get_document("location").expect("a location");
            let distance = metres(near, location);
            if selects(query, record) && distance <= limit {
                let mut whole = record.clone();
                whole.insert(distance_field, distance);
                let mut answer = Document::new();
                for (field, _) in kept.iter() {
                    if let Some(value) = whole.get(field) {
                        answer.insert(field.clone(), value.clone());
                    }
                }
                answers.push((distance, answer));
            }
        }
        answers.sort_by(|one, other| one.0.partial_cmp(&other.0).expect("distances are numbers"));
        answers.into_iter().map(|(_, answer)| answer).collect()
    }
}

fn number(value: f64) -> Scalar {
    Scalar::new(Bson::Double(value)).expect("a finite double")
}

fn instant(text: &str) -> Timestamp {
    let parsed = DateTime::parse_from_rfc3339(text).expect("Can't parse date");
    Timestamp::from_millis(parsed.timestamp_millis()).expect("the date is in range")
}

fn user(key: &str, latitude: f64, longitude: f64, until: &str, contacts: &[&str]) -> User {
    User {
        phone_number_hash: String::from(key),
        latitude: number(latitude),
        longitude: number(longitude),
        available_until: instant(until),
        contacts_phone_number_hash: contacts.iter().map(|key| key.to_string()).collect(),
    }
}

fn read_match(answer: &Document) -> Result<LocalizedUser, DatabaseError> {
    let key = answer
        .get_str("phone_number_hash")
        .map_err(|_| DatabaseError::new(ErrorKind::Decode, "missing field `phone_number_hash`"))?;
    let distance = answer
        .get("distance")
        .cloned()
        .and_then(Scalar::new)
        .ok_or_else(|| DatabaseError::new(ErrorKind::Decode, "missing field `distance`"))?;
    Ok(LocalizedUser { phone_number_hash: String::from(key), distance })
}

fn set_user_available(
    store: &mut Store,
    interface: &DataBaseInterface,
    user: &User,
) -> Result<ReplacedOrInserted, DatabaseError> {
    assert!(user.is_publishable());
    let request = interface.set_user_available(user);
    let previous = store.replace_or_insert(&request.filter, request.replacement);
    DataBaseInterface::read_publication(Ok(previous))
}

fn get_contacts_available_nearby(
    store: &Store,
    interface: &DataBaseInterface,
    my_phone_hash: &str,
    my_latitude: f64,
    my_longitude: f64,
    max_distance_m: f32,
) -> Result<Vec<LocalizedUser>, DatabaseError> {
    let pipeline = interface.get_contacts_available_nearby(
        &String::from(my_phone_hash),
        &number(my_latitude),
        &number(my_longitude),
        &Scalar::new(Bson::from(max_distance_m)).expect("a finite limit"),
    );
    let answers = store.aggregate(&pipeline);
    let mut stream = answers.iter();
    let mut found = Vec::new();
    loop {
        let event = stream.next().map(read_match);
        match DataBaseInterface::read_nearby(found, event) {
            NearbyProgress::Pending(more) => found = more,
            NearbyProgress::Finished(outcome) => return outcome,
        }
    }
}

fn remove_available_until(
    store: &mut Store,
    interface: &DataBaseInterface,
    date_time: Timestamp,
) -> Result<u64, DatabaseError> {
    let filter = interface.remove_available_until(date_time);
    DataBaseInterface::read_removal(Ok(store.delete_many(&filter)))
}

fn keys_in(store: &Store) -> Vec<String> {
    store
        .records
        .iter()
        .map(|record| String::from(record.get_str("phone_number_hash").expect("a key")))
        .collect()
}

fn keys_of(found: &[LocalizedUser]) -> Vec<String> {
    found.iter().map(|one| one.phone_number_hash.clone()).collect()
}

#[test]
fn test_we_can_insert_new_user() {
    let mut store = Store::new();
    let database = DataBaseInterface::new();

    let user = user("15645612", 43.2255228, 6.3516515645, "2021-05-21T18:21:43+00:00", &[]);
    let res = set_user_available(&mut store, &database, &user).expect("Can't add user");

    assert!(matches!(res, ReplacedOrInserted::Inserted));

    let res2 = set_user_available(&mut store, &database, &user).expect("Can't add user");

    assert!(matches!(res2, ReplacedOrInserted::Replaced));
}

#[test]
fn test_we_can_get_available_contacts_nearby() {
    let mut store = Store::new();
    let database = DataBaseInterface::new();
    let sylvester = user(
        "Sylverster Staline",
        43.00001,
        6.00001,
        "2021-05-21T18:21:43+00:00",
        &["John Lenine", "Didier CrouteChef"],
    );
    set_user_available(&mut store, &database, &sylvester).expect("Can't add user");

    let didier =
        user("Didier CrouteChef", 42.0000, 5.0000, "2021-05-21T18:21:43+00:00", &["John Lenine"]);
    set_user_available(&mut store, &database, &didier).expect("Can't add user");

    let unknown_man =
        user("Unknown Man", 43.0000, 6.0000, "2021-05-21T18:21:43+00:00", &["Unknwon Man's Friend"]);
    set_user_available(&mut store, &database, &unknown_man).expect("Can't add user");

    let my_phone_hash = "John Lenine".to_string();
    let contact_availables = get_contacts_available_nearby(
        &store,
        &database,
        &my_phone_hash,
        43.000_f64,
        6.000_f64,
        1000_f32,
    )
    .expect("Can't get availables contacts");

    assert_eq!(contact_availables.len(), 1);
    assert_eq!(
        contact_availables
            .get(0)
            .expect("Not enough returned values")
            .phone_number_hash,
        sylvester.phone_number_hash
    )
}

#[test]
fn test_we_remove_user_no_longuer_available() {
    let mut store = Store::new();
    let database = DataBaseInterface::new();

    let available = user("Available", 43.2255228, 6.3516515645, "2021-05-21T18:21:00+00:00", &[]);
    let not_available =
        user("Not Available", 43.2255228, 6.3516515645, "2021-05-21T18:20:00+00:00", &[]);

    let _ = set_user_available(&mut store, &database, &available).expect("Can't add user");
    let _ = set_user_available(&mut store, &database, &not_available).expect("Can't add user");

    let now = instant("2021-05-21T18:20:30+00:00");

    let count = remove_available_until(&mut store, &database, now).expect("Can't remove users");
    assert_eq!(count, 1);

    let availables_users_hash = keys_in(&store);
    assert_eq!(availables_users_hash.len(), 1);
    assert_eq!(
        *availables_users_hash.get(0).expect("Incorrect length"),
        available.phone_number_hash
    );
}

#[test]
fn test_full_scenario() {
    let mut store = Store::new();
    let database_interface = DataBaseInterface::new();
    assert_eq!(store.delete_many(&database_interface.clear_database()), 0);

    let nine_pm = "2021-05-21T21:00:00+00:00";
    let rebecca = user("Rebecca", 43.0000000, 6.000000, nine_pm, &["Peppa"]);
    assert!(set_user_available(&mut store, &database_interface, &rebecca).is_ok());

    let suzy = user("Suzy", 44.0, 5.0, nine_pm, &["Peppa"]);
    assert!(set_user_available(&mut store, &database_interface, &suzy).is_ok());

    let pedro = user("Peppa", 43.0, 6.0, nine_pm, &["Suzy"]);
    assert!(set_user_available(&mut store, &database_interface, &pedro).is_ok());

    let peppa = user(
        "Peppa",
        43.0000000,
        6.000000,
        "2021-05-21T22:00:00+00:00",
        &["Suzy", "Rebecca", "Pedro"],
    );
    let resp = get_contacts_available_nearby(
        &store,
        &database_interface,
        &peppa.phone_number_hash,
        43.0000000,
        6.000000,
        10_000f32,
    )
    .expect("Can't get availables contacts");
    assert_eq!(resp.len(), 1);
    assert_eq!(
        resp.get(0)
            .expect("Not enough nearby friends")
            .phone_number_hash,
        "Rebecca"
    );

    let deleted = remove_available_until(
        &mut store,
        &database_interface,
        instant("2021-05-21T21:30:00+00:00"),
    )
    .expect("Can't remove users");
    assert_eq!(deleted, 3);

    let resp = get_contacts_available_nearby(
        &store,
        &database_interface,
        &peppa.phone_number_hash,
        43.0000000,
        6.000000,
        10_000f32,
    )
    .expect("Can't get availables contacts");
    assert_eq!(resp.len(), 0);
}

#[test]
fn publishing_one_identity_again_and_again_leaves_one_record_the_last() {
    let mut store = Store::new();
    let database = DataBaseInterface::new();
    let other = user("other", 1.0, 2.0, "2021-05-21T18:00:00+00:00", &[]);
    set_user_available(&mut store, &database, &other).expect("Can't add user");

    let payloads = [
        user("key", 43.0, 6.0, "2021-05-21T18:21:43+00:00", &["a"]),
        user("key", 44.0, 5.0, "2021-05-21T19:00:00+00:00", &["a", "b"]),
        user("key", 45.5, 4.25, "2021-05-21T18:00:00+00:00", &[]),
    ];
    for (turn, payload) in payloads.iter().enumerate() {
        let signal = set_user_available(&mut store, &database, payload).expect("Can't add user");
        let expected =
            if turn == 0 { ReplacedOrInserted::Inserted } else { ReplacedOrInserted::Replaced };
        assert_eq!(signal, expected);
        let of_key: Vec<&Document> = store
            .records
            .iter()
            .filter(|record| record.get_str("phone_number_hash") == Ok("key"))
            .collect();
        assert_eq!(of_key, [&payload.to_bson_document()]);
        assert_eq!(store.records.len(), 2);
        assert!(store.records.contains(&other.to_bson_document()));
    }
}

#[test]
fn a_publication_with_an_older_expiry_still_wins() {
    let mut store = Store::new();
    let database = DataBaseInterface::new();
    let later = user("key", 43.0, 6.0, "2021-05-21T22:00:00+00:00", &[]);
    let earlier = user("key", 43.0, 6.0, "2021-05-21T21:00:00+00:00", &[]);
    set_user_available(&mut store, &database, &later).expect("Can't add user");
    set_user_available(&mut store, &database, &earlier).expect("Can't add user");
    assert_eq!(store.records, [earlier.to_bson_document()]);
}

#[test]
fn visibility_has_a_direction() {
    let mut store = Store::new();
    let database = DataBaseInterface::new();
    let a = user("A", 43.0, 6.0, "2021-05-21T18:21:43+00:00", &["B"]);
    let b = user("B", 43.0, 6.0, "2021-05-21T18:21:43+00:00", &[]);
    set_user_available(&mut store, &database, &a).expect("Can't add user");
    set_user_available(&mut store, &database, &b).expect("Can't add user");

    let seen_by_b = get_contacts_available_nearby(&store, &database, "B", 43.0, 6.0, 1000.0)
        .expect("Can't get availables contacts");
    assert_eq!(keys_of(&seen_by_b), ["A"]);

    let seen_by_a = get_contacts_available_nearby(&store, &database, "A", 43.0, 6.0, 1000.0)
        .expect("Can't get availables contacts");
    assert!(seen_by_a.is_empty());
}

#[test]
fn a_requester_finds_itself_only_where_a_record_lists_it() {
    let mut store = Store::new();
    let database = DataBaseInterface::new();
    let lonely = user("A", 43.0, 6.0, "2021-05-21T18:21:43+00:00", &["B"]);
    set_user_available(&mut store, &database, &lonely).expect("Can't add user");
    let seen = get_contacts_available_nearby(&store, &database, "A", 43.0, 6.0, 1000.0)
        .expect("Can't get availables contacts");
    assert!(seen.is_empty());

    let narcissus = user("A", 43.0, 6.0, "2021-05-21T18:21:43+00:00", &["A"]);
    set_user_available(&mut store, &database, &narcissus).expect("Can't add user");
    let seen = get_contacts_available_nearby(&store, &database, "A", 43.0, 6.0, 1000.0)
        .expect("Can't get availables contacts");
    assert_eq!(keys_of(&seen), ["A"]);
}

#[test]
fn nobody_available_is_an_empty_answer() {
    let store = Store::new();
    let database = DataBaseInterface::new();
    let seen = get_contacts_available_nearby(&store, &database, "A", 43.0, 6.0, 1000.0)
        .expect("Can't get availables contacts");
    assert!(seen.is_empty());
}

#[test]
fn distance_filters_the_far_away() {
    let mut store = Store::new();
    let database = DataBaseInterface::new();
    let a = user("A", 43.0, 6.0, "2021-05-21T18:21:43+00:00", &["B"]);
    let c = user("C", 44.0, 5.0, "2021-05-21T18:21:43+00:00", &["B"]);
    set_user_available(&mut store, &database, &a).expect("Can't add user");
    set_user_available(&mut store, &database, &c).expect("Can't add user");

    let near = get_contacts_available_nearby(&store, &database, "B", 43.0, 6.0, 1000.0)
        .expect("Can't get availables contacts");
    assert_eq!(keys_of(&near), ["A"]);
    assert_eq!(near[0].distance.to_bits(), 0.0_f64.to_bits());

    let wide = get_contacts_available_nearby(&store, &database, "B", 43.0, 6.0, 200_000.0)
        .expect("Can't get availables contacts");
    assert_eq!(keys_of(&wide), ["A", "C"]);
    let far = f64::from_bits(wide[1].distance.to_bits());
    assert!(far > 130_000.0 && far < 140_000.0);
}

#[test]
fn limits_that_are_zero_or_negative() {
    let mut store = Store::new();
    let database = DataBaseInterface::new();
    let here = user("here", 43.0, 6.0, "2021-05-21T18:21:43+00:00", &["me"]);
    let there = user("there", 43.001, 6.0, "2021-05-21T18:21:43+00:00", &["me"]);
    set_user_available(&mut store, &database, &here).expect("Can't add user");
    set_user_available(&mut store, &database, &there).expect("Can't add user");
    for (limit, expected) in [(0.0_f32, vec!["here"]), (-0.0, vec!["here"]), (-1.0, vec![])] {
        let seen = get_contacts_available_nearby(&store, &database, "me", 43.0, 6.0, limit)
            .expect("Can't get availables contacts");
        assert_eq!(keys_of(&seen), expected);
    }
}

#[test]
fn answers_come_nearest_first() {
    let mut store = Store::new();
    let database = DataBaseInterface::new();
    for (key, latitude) in [("far", 43.05), ("near", 43.001), ("middle", 43.01)] {
        let one = user(key, latitude, 6.0, "2021-05-21T18:21:43+00:00", &["me"]);
        set_user_available(&mut store, &database, &one).expect("Can't add user");
    }
    let seen = get_contacts_available_nearby(&store, &database, "me", 43.0, 6.0, 10_000.0)
        .expect("Can't get availables contacts");
    assert_eq!(keys_of(&seen), ["near", "middle", "far"]);
    assert!(seen[0].distance.to_bits() <= seen[1].distance.to_bits());
    assert!(seen[1].distance.to_bits() <= seen[2].distance.to_bits());
}

#[test]
fn a_swapped_point_would_be_another_place() {
    let mut store = Store::new();
    let database = DataBaseInterface::new();
    let a = user("A", 10.0, 60.0, "2021-05-21T18:21:43+00:00", &["B"]);
    set_user_available(&mut store, &database, &a).expect("Can't add user");
    let here = get_contacts_available_nearby(&store, &database, "B", 10.0, 60.0, 1000.0)
        .expect("Can't get availables contacts");
    assert_eq!(keys_of(&here), ["A"]);
    let swapped = get_contacts_available_nearby(&store, &database, "B", 60.0, 10.0, 1000.0)
        .expect("Can't get availables contacts");
    assert!(swapped.is_empty());
}

#[test]
fn a_reply_that_cannot_be_read_fails_the_query() {
    let mut broken = Document::new();
    broken.insert("phone_number_hash", "A");
    let read = read_match(&broken);
    match DataBaseInterface::read_nearby(Vec::new(), Some(read)) {
        NearbyProgress::Finished(Err(error)) => {
            assert_eq!(error.kind, ErrorKind::Decode);
            assert_eq!(error.message, "BSON Error : missing field `distance`");
        },
        other => panic!("not failed: {:?}", other),
    }
}

#[test]
fn sweep_removes_what_expired_and_only_once() {
    let mut store = Store::new();
    let database = DataBaseInterface::new();
    let first = user("first", 43.0, 6.0, "2021-05-21T18:20:00+00:00", &[]);
    let second = user("second", 43.0, 6.0, "2021-05-21T18:21:00+00:00", &[]);
    set_user_available(&mut store, &database, &first).expect("Can't add user");
    set_user_available(&mut store, &database, &second).expect("Can't add user");

    let cutoff = instant("2021-05-21T18:20:30+00:00");
    assert_eq!(remove_available_until(&mut store, &database, cutoff).expect("a count"), 1);
    assert_eq!(keys_in(&store), ["second"]);
    assert_eq!(remove_available_until(&mut store, &database, cutoff).expect("a count"), 0);
    assert_eq!(keys_in(&store), ["second"]);

    let later = instant("2021-05-21T18:21:00+00:00");
    assert_eq!(remove_available_until(&mut store, &database, later).expect("a count"), 0);
    let past = instant("2021-05-21T18:21:00.001+00:00");
    assert_eq!(remove_available_until(&mut store, &database, past).expect("a count"), 1);
    assert!(store.records.is_empty());
}

#[test]
fn reset_removes_every_record() {
    let mut store = Store::new();
    let database = DataBaseInterface::new();
    for (key, until) in [
        ("past", "2001-01-01T00:00:00+00:00"),
        ("soon", "2021-05-21T18:21:00+00:00"),
        ("far", "9999-12-31T23:59:59+00:00"),
    ] {
        let one = user(key, 43.0, 6.0, until, &["a"]);
        set_user_available(&mut store, &database, &one).expect("Can't add user");
    }
    let reply = DataBaseInterface::read_removal(Ok(store.delete_many(&database.clear_database())));
    assert_eq!(reply.expect("a count"), 3);
    assert!(store.records.is_empty());
    let again = DataBaseInterface::read_removal(Ok(store.delete_many(&database.clear_database())));
    assert_eq!(again.expect("a count"), 0);
}

#[test]
fn end_to_end() {
    let mut store = Store::new();
    let database = DataBaseInterface::new();
    let mut cleaner = AvailableUserCleaner::new(database.clone());
    let a = user("A", 43.0, 6.0, "2021-05-21T21:00:00+00:00", &["B", "C"]);
    let b = user("B", 43.0, 6.0, "2021-05-21T21:10:00+00:00", &["A"]);
    let c = user("C", 44.0, 5.0, "2021-05-21T21:20:00+00:00", &["A"]);
    for one in [&a, &b, &c] {
        let signal = set_user_available(&mut store, &database, one).expect("Can't add user");
        assert_eq!(signal, ReplacedOrInserted::Inserted);
    }

    let seen = get_contacts_available_nearby(&store, &database, "A", 43.0, 6.0, 1000.0)
        .expect("Can't get availables contacts");
    assert_eq!(keys_of(&seen), ["B"]);

    let now = instant("2021-05-21T21:30:00+00:00");
    let filter = cleaner.clear_no_longuer_available_users(now).expect("a sweep");
    assert!(cleaner.clear_no_longuer_available_users(now).is_none());
    let reply = DataBaseInterface::read_removal(Ok(store.delete_many(&filter)));
    match cleaner.sweep_finished(reply) {
        SweepReport::Removed(count) => assert_eq!(count, 3),
        other => panic!("not removed: {:?}", other),
    }

    let seen = get_contacts_available_nearby(&store, &database, "A", 43.0, 6.0, 1000.0)
        .expect("Can't get availables contacts");
    assert!(seen.is_empty());
}
