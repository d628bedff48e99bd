//! Nearby queries: what the store answers to the pipeline, and who finds
//! whom.
//!
//! The geometry is the store's. Here it is a function `metres` from two
//! GeoJSON points to their distance on the sphere, and every law holds
//! whatever that function is.

use crate::database::collection::filters::{
    law_visibility_query_selects_listed, meets,
};
use crate::database::collection::publications::at_most_one_per_identity;
use crate::database::collection::removals::{law_sweep_removes_the_expired, sweep};
use crate::database::database_interface::{geo_near_fields, nearby_stage_fields, visibility_query};
use crate::models::user::{
    lemma_record_field_names, point_fields, record_fields, Match, PresenceRecord,
};
use crate::store_values::{BsonModel, Fields};
use vstd::prelude::*;

verus! {

/// Whether a distance lies within a limit, both in metres and given by the
/// bit patterns of doubles. A distance is never negative, and doubles that
/// are not negative are ordered as their bit patterns are. Negative zero is
/// zero; any other negative limit admits nothing.
pub open spec fn within(distance: u64, limit: u64) -> bool {
    if limit == 0x8000_0000_0000_0000 {
        distance == 0
    } else {
        limit < 0x8000_0000_0000_0000 && distance <= limit
    }
}

/// The parameters of a geospatial stage.
pub open spec fn geo_near_of(stage: Fields) -> Fields {
    stage["$geoNear"@]->Embedded_0
}

/// The distance that the geospatial stage computes for `record`. `metres`
/// stands for the geometry of the store: the distance on the sphere between
/// two GeoJSON points.
pub open spec fn distance_to(
    stage: Fields,
    record: PresenceRecord,
    metres: spec_fn(Fields, Fields) -> u64,
) -> u64 {
    metres(
        geo_near_of(stage)["near"@]->Embedded_0,
        record_fields(record)["location"@]->Embedded_0,
    )
}

/// Whether the geospatial stage lets `record` through: the record meets the
/// stage's query and lies within its limit.
pub open spec fn geo_near_selects(
    stage: Fields,
    record: PresenceRecord,
    metres: spec_fn(Fields, Fields) -> u64,
) -> bool {
    &&& meets(record_fields(record), geo_near_of(stage)["query"@]->Embedded_0)
    &&& within(distance_to(stage, record, metres), geo_near_of(stage)["maxDistance"@]->Double_0)
}

/// What the pipeline hands out for a record that the stage lets through:
/// its key and its distance, nothing else.
pub open spec fn match_for(
    stage: Fields,
    record: PresenceRecord,
    metres: spec_fn(Fields, Fields) -> u64,
) -> Match {
    Match { identity_key: record.identity_key, distance: distance_to(stage, record, metres) }
}

/// Whether `answer` is what the store hands out for the nearby pipeline
/// whose first stage is `stage`: `picks` names, for each match in turn, the
/// place of its record in the collection.
pub open spec fn is_picked_answer(
    records: Seq<PresenceRecord>,
    stage: Fields,
    metres: spec_fn(Fields, Fields) -> u64,
    picks: Seq<int>,
    answer: Seq<Match>,
) -> bool {
    &&& picks.len() == answer.len()
    &&& forall|i: int|
        0 <= i < picks.len() ==> 0 <= #[trigger] picks[i] < records.len() && geo_near_selects(
            stage,
            records[picks[i]],
            metres,
        ) && answer[i] == match_for(stage, records[picks[i]], metres)
    &&& forall|i: int, j: int| 0 <= i < j < picks.len() ==> picks[i] != picks[j]
    &&& forall|at: int|
        0 <= at < records.len() && geo_near_selects(stage, #[trigger] records[at], metres)
            ==> picks.contains(at)
    &&& forall|i: int, j: int|
        0 <= i <= j < answer.len() ==> answer[i].distance <= answer[j].distance
}

/// Whether `answer` is what the store hands out for the nearby pipeline
/// whose first stage is `stage`: one match for each record that the stage
/// lets through, nearest first.
pub open spec fn is_nearby_answer(
    records: Seq<PresenceRecord>,
    stage: Fields,
    metres: spec_fn(Fields, Fields) -> u64,
    answer: Seq<Match>,
) -> bool {
    exists|picks: Seq<int>| is_picked_answer(records, stage, metres, picks, answer)
}

proof fn lemma_geo_near_field_names()
    ensures
        "near"@ != "distanceField"@,
        "near"@ != "maxDistance"@,
        "near"@ != "query"@,
        "near"@ != "spherical"@,
        "distanceField"@ != "maxDistance"@,
        "distanceField"@ != "query"@,
        "distanceField"@ != "spherical"@,
        "maxDistance"@ != "query"@,
        "maxDistance"@ != "spherical"@,
        "query"@ != "spherical"@,
{
    reveal_strlit("near");
    reveal_strlit("distanceField");
    reveal_strlit("maxDistance");
    reveal_strlit("query");
    reveal_strlit("spherical");
    assert("near"@.len() == 4);
    assert("distanceField"@.len() == 13);
    assert("maxDistance"@.len() == 11);
    assert("query"@.len() == 5);
    assert("spherical"@.len() == 9);
}

/// The stage that `create_nearby_stage` builds lets a record through if and
/// only if the record lists the requester and lies within the limit of the
/// point of the request.
pub proof fn law_nearby_stage_selects_visible_in_range(
    requester: Seq<char>,
    latitude: u64,
    longitude: u64,
    max_distance: u64,
    metres: spec_fn(Fields, Fields) -> u64,
    record: PresenceRecord,
)
    ensures
        distance_to(
            nearby_stage_fields(requester, latitude, longitude, max_distance),
            record,
            metres,
        ) == metres(
            point_fields(longitude, latitude),
            point_fields(record.longitude, record.latitude),
        ),
        geo_near_selects(
            nearby_stage_fields(requester, latitude, longitude, max_distance),
            record,
            metres,
        ) <==> record.visible_to.contains(requester) && within(
            metres(
                point_fields(longitude, latitude),
                point_fields(record.longitude, record.latitude),
            ),
            max_distance,
        ),
{
    lemma_geo_near_field_names();
    lemma_record_field_names();
    law_visibility_query_selects_listed(requester, record);
    let stage = nearby_stage_fields(requester, latitude, longitude, max_distance);
    let geo_near = geo_near_fields(requester, latitude, longitude, max_distance);
    assert(geo_near_of(stage) == geo_near);
    assert(geo_near["near"@] == BsonModel::Embedded(point_fields(longitude, latitude)));
    assert(geo_near["query"@] == BsonModel::Embedded(visibility_query(requester)));
    assert(geo_near["maxDistance"@] == BsonModel::Double(max_distance));
    assert(record_fields(record)["location"@] == BsonModel::Embedded(
        point_fields(record.longitude, record.latitude),
    ));
}

/// A nearby query finds a record of the collection if and only if the
/// record lists the requester and lies within the limit; a record it finds
/// comes with its distance from the point of the request.
pub proof fn law_nearby_finds_the_visible_in_range(
    records: Seq<PresenceRecord>,
    requester: Seq<char>,
    latitude: u64,
    longitude: u64,
    max_distance: u64,
    metres: spec_fn(Fields, Fields) -> u64,
    answer: Seq<Match>,
    record: PresenceRecord,
)
    requires
        at_most_one_per_identity(records),
        records.contains(record),
        is_nearby_answer(
            records,
            nearby_stage_fields(requester, latitude, longitude, max_distance),
            metres,
            answer,
        ),
    ensures
        (exists|i: int|
            0 <= i < answer.len() && #[trigger] answer[i].identity_key == record.identity_key)
            <==> record.visible_to.contains(requester) && within(
            metres(
                point_fields(longitude, latitude),
                point_fields(record.longitude, record.latitude),
            ),
            max_distance,
        ),
        forall|i: int|
            0 <= i < answer.len() && #[trigger] answer[i].identity_key == record.identity_key
                ==> answer[i].distance == metres(
                point_fields(longitude, latitude),
                point_fields(record.longitude, record.latitude),
            ),
{
    let stage = nearby_stage_fields(requester, latitude, longitude, max_distance);
    let picks = choose|picks: Seq<int>| is_picked_answer(records, stage, metres, picks, answer);
    let at = choose|at: int| 0 <= at < records.len() && records[at] == record;
    law_nearby_stage_selects_visible_in_range(
        requester,
        latitude,
        longitude,
        max_distance,
        metres,
        record,
    );
    if geo_near_selects(stage, record, metres) {
        assert(picks.contains(at));
        let i = choose|i: int| 0 <= i < picks.len() && picks[i] == at;
        assert(answer[i].identity_key == record.identity_key);
    }
    assert forall|i: int|
        0 <= i < answer.len() && #[trigger] answer[i].identity_key
            == record.identity_key implies picks[i] == at by {
        let from = picks[i];
        assert(records[from].identity_key == records[at].identity_key);
        if from < at {
            assert(records[from].identity_key != records[at].identity_key);
        }
        if at < from {
            assert(records[at].identity_key != records[from].identity_key);
        }
    }
}

/// `picks` with the place `at` put in by the distance of its record: behind
/// every place whose record is no farther, before the others.
pub open spec fn placed_by_distance(
    records: Seq<PresenceRecord>,
    stage: Fields,
    metres: spec_fn(Fields, Fields) -> u64,
    picks: Seq<int>,
    at: int,
) -> Seq<int>
    decreases picks.len(),
{
    if picks.len() == 0 {
        seq![at]
    } else if distance_to(stage, records[picks.last()], metres) <= distance_to(
        stage,
        records[at],
        metres,
    ) {
        picks.push(at)
    } else {
        placed_by_distance(records, stage, metres, picks.drop_last(), at).push(picks.last())
    }
}

/// The places of the records that the stage lets through, nearest first;
/// records equally far stay in the order of the collection.
pub open spec fn nearest_first(
    records: Seq<PresenceRecord>,
    stage: Fields,
    metres: spec_fn(Fields, Fields) -> u64,
    upto: int,
) -> Seq<int>
    decreases upto,
{
    if upto <= 0 {
        Seq::empty()
    } else if geo_near_selects(stage, records[upto - 1], metres) {
        placed_by_distance(
            records,
            stage,
            metres,
            nearest_first(records, stage, metres, upto - 1),
            upto - 1,
        )
    } else {
        nearest_first(records, stage, metres, upto - 1)
    }
}

/// The matches of the records at the places `picks`, in that order.
pub open spec fn matches_at(
    records: Seq<PresenceRecord>,
    stage: Fields,
    metres: spec_fn(Fields, Fields) -> u64,
    picks: Seq<int>,
) -> Seq<Match> {
    picks.map_values(|at: int| match_for(stage, records[at], metres))
}

/// Whether `picks` are places of the first `upto` records that the stage
/// lets through, each once, all of them, nearest first.
spec fn picks_in_order(
    records: Seq<PresenceRecord>,
    stage: Fields,
    metres: spec_fn(Fields, Fields) -> u64,
    picks: Seq<int>,
    upto: int,
) -> bool {
    &&& forall|i: int|
        0 <= i < picks.len() ==> 0 <= #[trigger] picks[i] < upto && geo_near_selects(
            stage,
            records[picks[i]],
            metres,
        )
    &&& forall|i: int, j: int| 0 <= i < j < picks.len() ==> picks[i] != picks[j]
    &&& forall|at: int|
        0 <= at < upto && geo_near_selects(stage, #[trigger] records[at], metres)
            ==> picks.contains(at)
    &&& forall|i: int, j: int|
        0 <= i <= j < picks.len() ==> distance_to(stage, records[picks[i]], metres)
            <= distance_to(stage, records[picks[j]], metres)
}

proof fn lemma_placed_by_distance(
    records: Seq<PresenceRecord>,
    stage: Fields,
    metres: spec_fn(Fields, Fields) -> u64,
    picks: Seq<int>,
    at: int,
)
    requires
        forall|i: int, j: int|
            0 <= i <= j < picks.len() ==> distance_to(stage, records[picks[i]], metres)
                <= distance_to(stage, records[picks[j]], metres),
    ensures
        placed_by_distance(records, stage, metres, picks, at).len() == picks.len() + 1,
        forall|i: int|
            0 <= i <= picks.len() ==> #[trigger] placed_by_distance(
                records,
                stage,
                metres,
                picks,
                at,
            )[i] == at || picks.contains(
                placed_by_distance(records, stage, metres, picks, at)[i],
            ),
        placed_by_distance(records, stage, metres, picks, at).contains(at),
        forall|i: int|
            0 <= i < picks.len() ==> placed_by_distance(records, stage, metres, picks, at).contains(
                #[trigger] picks[i],
            ),
        (forall|i: int| 0 <= i < picks.len() ==> #[trigger] picks[i] != at) && (forall|
            i: int,
            j: int,
        |
            0 <= i < j < picks.len() ==> picks[i] != picks[j]) ==> forall|i: int, j: int|
            0 <= i < j <= picks.len() ==> placed_by_distance(records, stage, metres, picks, at)[i]
                != placed_by_distance(records, stage, metres, picks, at)[j],
        forall|i: int, j: int|
            0 <= i <= j <= picks.len() ==> distance_to(
                stage,
                records[placed_by_distance(records, stage, metres, picks, at)[i]],
                metres,
            ) <= distance_to(
                stage,
                records[placed_by_distance(records, stage, metres, picks, at)[j]],
                metres,
            ),
    decreases picks.len(),
{
    let placed = placed_by_distance(records, stage, metres, picks, at);
    if picks.len() == 0 {
        assert(placed[0] == at);
    } else if distance_to(stage, records[picks.last()], metres) <= distance_to(
        stage,
        records[at],
        metres,
    ) {
        assert(placed == picks.push(at));
        assert(placed[picks.len() as int] == at);
        assert forall|i: int| 0 <= i < picks.len() implies placed.contains(
            #[trigger] picks[i],
        ) by {
            assert(placed[i] == picks[i]);
        }
        assert forall|i: int| 0 <= i <= picks.len() implies #[trigger] placed[i] == at
            || picks.contains(placed[i]) by {
            if i < picks.len() {
                assert(picks[i] == placed[i]);
            }
        }
        assert forall|i: int, j: int| 0 <= i <= j <= picks.len() implies distance_to(
            stage,
            records[placed[i]],
            metres,
        ) <= distance_to(stage, records[placed[j]], metres) by {
            if j < picks.len() {
                assert(placed[i] == picks[i] && placed[j] == picks[j]);
            } else if i < picks.len() {
                assert(placed[i] == picks[i]);
                assert(distance_to(stage, records[picks[i]], metres) <= distance_to(
                    stage,
                    records[picks[picks.len() - 1]],
                    metres,
                ));
            }
        }
    } else {
        let front = picks.drop_last();
        let last = picks.last();
        let inner = placed_by_distance(records, stage, metres, front, at);
        assert forall|i: int, j: int| 0 <= i <= j < front.len() implies distance_to(
            stage,
            records[front[i]],
            metres,
        ) <= distance_to(stage, records[front[j]], metres) by {
            assert(front[i] == picks[i] && front[j] == picks[j]);
        }
        lemma_placed_by_distance(records, stage, metres, front, at);
        assert(placed == inner.push(last));
        assert(placed[picks.len() as int] == last);
        assert(inner.contains(at));
        let where_at = choose|i: int| 0 <= i < inner.len() && inner[i] == at;
        assert(placed[where_at] == at);
        assert forall|i: int| 0 <= i < picks.len() implies placed.contains(
            #[trigger] picks[i],
        ) by {
            if i < front.len() {
                assert(front[i] == picks[i]);
                assert(inner.contains(front[i]));
                let k = choose|k: int| 0 <= k < inner.len() && inner[k] == front[i];
                assert(placed[k] == picks[i]);
            } else {
                assert(placed[picks.len() as int] == picks[i]);
            }
        }
        assert forall|i: int| 0 <= i <= picks.len() implies #[trigger] placed[i] == at
            || picks.contains(placed[i]) by {
            if i < picks.len() {
                assert(placed[i] == inner[i]);
                if inner[i] != at {
                    assert(front.contains(inner[i]));
                    let k = choose|k: int| 0 <= k < front.len() && front[k] == inner[i];
                    assert(picks[k] == inner[i]);
                }
            } else {
                assert(picks[picks.len() - 1] == last);
            }
        }
        if (forall|i: int| 0 <= i < picks.len() ==> #[trigger] picks[i] != at) && (forall|
            i: int,
            j: int,
        |
            0 <= i < j < picks.len() ==> picks[i] != picks[j]) {
            assert forall|i: int| 0 <= i < front.len() implies #[trigger] front[i] != at by {
                assert(front[i] == picks[i]);
            }
            assert forall|i: int, j: int| 0 <= i < j < front.len() implies front[i]
                != front[j] by {
                assert(front[i] == picks[i] && front[j] == picks[j]);
            }
            assert forall|i: int, j: int| 0 <= i < j <= picks.len() implies placed[i]
                != placed[j] by {
                if j < picks.len() {
                    assert(placed[i] == inner[i] && placed[j] == inner[j]);
                } else {
                    assert(placed[i] == inner[i]);
                    assert(placed[j] == last);
                    assert(last == picks[picks.len() - 1]);
                    if inner[i] != at {
                        assert(front.contains(inner[i]));
                        let k = choose|k: int| 0 <= k < front.len() && front[k] == inner[i];
                        assert(picks[k] == inner[i]);
                    }
                }
            }
        }
        assert forall|i: int, j: int| 0 <= i <= j <= picks.len() implies distance_to(
            stage,
            records[placed[i]],
            metres,
        ) <= distance_to(stage, records[placed[j]], metres) by {
            if j < picks.len() {
                assert(placed[i] == inner[i] && placed[j] == inner[j]);
            } else if i < picks.len() {
                assert(placed[i] == inner[i]);
                assert(placed[j] == last);
                if inner[i] != at {
                    assert(front.contains(inner[i]));
                    let k = choose|k: int| 0 <= k < front.len() && front[k] == inner[i];
                    assert(picks[k] == inner[i]);
                    assert(distance_to(stage, records[picks[k]], metres) <= distance_to(
                        stage,
                        records[picks[picks.len() - 1]],
                        metres,
                    ));
                }
            }
        }
    }
}

proof fn lemma_nearest_first(
    records: Seq<PresenceRecord>,
    stage: Fields,
    metres: spec_fn(Fields, Fields) -> u64,
    upto: int,
)
    requires
        0 <= upto <= records.len(),
    ensures
        picks_in_order(records, stage, metres, nearest_first(records, stage, metres, upto), upto),
    decreases upto,
{
    if upto > 0 {
        let earlier = nearest_first(records, stage, metres, upto - 1);
        let picks = nearest_first(records, stage, metres, upto);
        lemma_nearest_first(records, stage, metres, upto - 1);
        if geo_near_selects(stage, records[upto - 1], metres) {
            lemma_placed_by_distance(records, stage, metres, earlier, upto - 1);
            assert forall|i: int| 0 <= i < picks.len() implies 0 <= #[trigger] picks[i] < upto
                && geo_near_selects(stage, records[picks[i]], metres) by {
                if picks[i] != upto - 1 {
                    assert(earlier.contains(picks[i]));
                    let k = choose|k: int| 0 <= k < earlier.len() && earlier[k] == picks[i];
                    assert(0 <= earlier[k] < upto - 1);
                }
            }
            assert forall|at: int|
                0 <= at < upto && geo_near_selects(
                    stage,
                    #[trigger] records[at],
                    metres,
                ) implies picks.contains(at) by {
                if at < upto - 1 {
                    assert(earlier.contains(at));
                    let k = choose|k: int| 0 <= k < earlier.len() && earlier[k] == at;
                    assert(picks.contains(earlier[k]));
                }
            }
        } else {
            assert forall|at: int|
                0 <= at < upto && geo_near_selects(
                    stage,
                    #[trigger] records[at],
                    metres,
                ) implies picks.contains(at) by {
                assert(at < upto - 1);
            }
        }
    }
}

/// The store always has an answer: for every collection and every stage,
/// the matches of the records that the stage lets through, nearest first,
/// form one.
pub proof fn law_the_store_has_an_answer(
    records: Seq<PresenceRecord>,
    stage: Fields,
    metres: spec_fn(Fields, Fields) -> u64,
)
    ensures
        is_nearby_answer(
            records,
            stage,
            metres,
            matches_at(
                records,
                stage,
                metres,
                nearest_first(records, stage, metres, records.len() as int),
            ),
        ),
{
    let picks = nearest_first(records, stage, metres, records.len() as int);
    let answer = matches_at(records, stage, metres, picks);
    lemma_nearest_first(records, stage, metres, records.len() as int);
    assert(is_picked_answer(records, stage, metres, picks, answer));
}

/// Where the stage lets no record of the collection through, the answer is
/// the empty one, and is an answer like any other: that nobody is nearby is
/// no failure.
pub proof fn law_nobody_nearby_is_an_answer(
    records: Seq<PresenceRecord>,
    stage: Fields,
    metres: spec_fn(Fields, Fields) -> u64,
    answer: Seq<Match>,
)
    requires
        forall|at: int|
            0 <= at < records.len() ==> !geo_near_selects(stage, #[trigger] records[at], metres),
    ensures
        is_nearby_answer(records, stage, metres, answer) <==> answer.len() == 0,
{
    if answer.len() == 0 {
        assert(is_picked_answer(records, stage, metres, Seq::<int>::empty(), answer));
    }
    if is_nearby_answer(records, stage, metres, answer) {
        let picks = choose|picks: Seq<int>| is_picked_answer(records, stage, metres, picks, answer);
        if picks.len() > 0 {
            assert(geo_near_selects(stage, records[picks[0]], metres));
        }
    }
}

/// After a sweep, a nearby query finds no record that had expired before
/// the cutoff, whoever asks and from wherever. Until the sweep such a record
/// is found like any other: nothing but the sweep looks at the expiry.
pub proof fn law_swept_records_are_not_found(
    records: Seq<PresenceRecord>,
    cutoff: i64,
    requester: Seq<char>,
    latitude: u64,
    longitude: u64,
    max_distance: u64,
    metres: spec_fn(Fields, Fields) -> u64,
    answer: Seq<Match>,
    record: PresenceRecord,
)
    requires
        at_most_one_per_identity(records),
        records.contains(record),
        record.expires_at < cutoff,
        is_nearby_answer(
            sweep(records, cutoff),
            nearby_stage_fields(requester, latitude, longitude, max_distance),
            metres,
            answer,
        ),
    ensures
        forall|i: int|
            0 <= i < answer.len() ==> #[trigger] answer[i].identity_key != record.identity_key,
{
    let stage = nearby_stage_fields(requester, latitude, longitude, max_distance);
    let swept = sweep(records, cutoff);
    law_sweep_removes_the_expired(records, cutoff);
    let picks = choose|picks: Seq<int>| is_picked_answer(swept, stage, metres, picks, answer);
    let at = choose|at: int| 0 <= at < records.len() && records[at] == record;
    assert forall|i: int| 0 <= i < answer.len() implies #[trigger] answer[i].identity_key
        != record.identity_key by {
        let kept = swept[picks[i]];
        assert(swept.contains(kept));
        assert(records.contains(kept));
        let from = choose|from: int| 0 <= from < records.len() && records[from] == kept;
        if kept.identity_key == record.identity_key {
            if from < at {
                assert(records[from].identity_key != records[at].identity_key);
            }
            if at < from {
                assert(records[at].identity_key != records[from].identity_key);
            }
        }
    }
}

/// Visibility has a direction. Where `listing` lists `listed` but `listed`
/// does not list `listing`: `listed`, asking from within the limit, finds
/// `listing`; `listing`, asking from anywhere with any limit, does not find
/// `listed`.
pub proof fn law_visibility_is_directional(
    records: Seq<PresenceRecord>,
    listing: PresenceRecord,
    listed: PresenceRecord,
    latitude: u64,
    longitude: u64,
    max_distance: u64,
    other_latitude: u64,
    other_longitude: u64,
    other_max_distance: u64,
    metres: spec_fn(Fields, Fields) -> u64,
    seen_by_listed: Seq<Match>,
    seen_by_listing: Seq<Match>,
)
    requires
        at_most_one_per_identity(records),
        records.contains(listing),
        records.contains(listed),
        listing.visible_to.contains(listed.identity_key),
        !listed.visible_to.contains(listing.identity_key),
        is_nearby_answer(
            records,
            nearby_stage_fields(listed.identity_key, latitude, longitude, max_distance),
            metres,
            seen_by_listed,
        ),
        is_nearby_answer(
            records,
            nearby_stage_fields(
                listing.identity_key,
                other_latitude,
                other_longitude,
                other_max_distance,
            ),
            metres,
            seen_by_listing,
        ),
    ensures
        within(
            metres(
                point_fields(longitude, latitude),
                point_fields(listing.longitude, listing.latitude),
            ),
            max_distance,
        ) ==> exists|i: int|
            0 <= i < seen_by_listed.len() && #[trigger] seen_by_listed[i].identity_key
                == listing.identity_key,
        forall|i: int|
            0 <= i < seen_by_listing.len() ==> #[trigger] seen_by_listing[i].identity_key
                != listed.identity_key,
{
    law_nearby_finds_the_visible_in_range(
        records,
        listed.identity_key,
        latitude,
        longitude,
        max_distance,
        metres,
        seen_by_listed,
        listing,
    );
    law_nearby_finds_the_visible_in_range(
        records,
        listing.identity_key,
        other_latitude,
        other_longitude,
        other_max_distance,
        metres,
        seen_by_listing,
        listed,
    );
}

} // verus!
