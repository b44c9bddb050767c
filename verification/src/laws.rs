//! What holds of the store and of a cycle, whatever the features.

use crate::error::{FormatError, SyncError};
use crate::feature::{DedupKey, FeatureModel};
use crate::json::{decoded, empty_members, json_parse, JsonTree};
use crate::normalize::{document_elements, feature_of, features_of, payload_features};
use crate::reader::{feature_tree, geometry_of, property_members};
use crate::store::{rows_of_properties, PropertyRowModel, StoreModel};
use crate::sync::{failure_of, synced};
use vstd::prelude::*;

verus! {

/// A stored feature stays stored: what the store matches, it still matches
/// after another feature was handed to it.
pub proof fn lemma_match_survives(store: StoreModel, key: DedupKey, feature: FeatureModel)
    requires
        store.has_match(key),
    ensures
        store.write(feature).has_match(key),
{
    let (i, j) = choose|i: int, j: int| store.pair_matches(i, j, key);
    assert(store.pair_matches(i, j, key));
    assert(store.write(feature).pair_matches(i, j, key));
}

/// A feature that was added is matched by its key.
pub proof fn lemma_inserted_is_matched(store: StoreModel, feature: FeatureModel)
    ensures
        store.insert(feature).has_match(feature.key()),
{
    let after = store.insert(feature);
    assert(after.pair_matches(
        store.features.len() as int,
        store.geometries.len() as int,
        feature.key(),
    ));
}

/// Handing a feature to the store a second time changes nothing.
pub proof fn lemma_write_settles(store: StoreModel, feature: FeatureModel)
    ensures
        store.write(feature).write(feature) == store.write(feature),
{
    if !store.has_match(feature.key()) && !store.is_full() {
        lemma_inserted_is_matched(store, feature);
    }
}

/// A feature that the store would not take stays one that it would not take,
/// whatever else is written.
pub proof fn lemma_settled_stays(store: StoreModel, feature: FeatureModel, other: FeatureModel)
    requires
        store.write(feature) == store,
    ensures
        store.write(other).write(feature) == store.write(other),
{
    if store.has_match(feature.key()) {
        lemma_match_survives(store, feature.key(), other);
    } else if !store.is_full() {
        assert(store.insert(feature).features.len() == store.features.len() + 1);
    }
}

/// The same, for any number of features written in between.
pub proof fn lemma_settled_stays_all(
    store: StoreModel,
    feature: FeatureModel,
    others: Seq<FeatureModel>,
)
    requires
        store.write(feature) == store,
    ensures
        store.write_all(others).write(feature) == store.write_all(others),
    decreases others.len(),
{
    if others.len() > 0 {
        lemma_settled_stays_all(store, feature, others.drop_last());
        lemma_settled_stays(store.write_all(others.drop_last()), feature, others.last());
    }
}

/// Writing one batch after another is writing them as one.
pub proof fn lemma_write_all_splits(
    store: StoreModel,
    first: Seq<FeatureModel>,
    second: Seq<FeatureModel>,
)
    ensures
        store.write_all(first + second) == store.write_all(first).write_all(second),
    decreases second.len(),
{
    if second.len() == 0 {
        assert(first + second =~= first);
    } else {
        lemma_write_all_splits(store, first, second.drop_last());
        assert((first + second).drop_last() =~= first + second.drop_last());
        assert((first + second).last() == second.last());
    }
}

/// After a batch was written, none of its features changes the store.
pub proof fn lemma_batch_is_settled(store: StoreModel, features: Seq<FeatureModel>, n: int)
    requires
        0 <= n < features.len(),
    ensures
        store.write_all(features).write(features[n]) == store.write_all(features),
{
    let done = features.take(n + 1);
    let rest = features.skip(n + 1);
    assert(done + rest =~= features);
    assert(done.drop_last() =~= features.take(n));
    assert(done.last() == features[n]);
    lemma_write_settles(store.write_all(features.take(n)), features[n]);
    lemma_write_all_splits(store, done, rest);
    lemma_settled_stays_all(store.write_all(done), features[n], rest);
}

/// Writing the first `n` features of a batch again, after the whole batch,
/// changes nothing.
proof fn lemma_prefix_again(store: StoreModel, features: Seq<FeatureModel>, n: int)
    requires
        0 <= n <= features.len(),
    ensures
        store.write_all(features).write_all(features.take(n)) == store.write_all(features),
    decreases n,
{
    if n > 0 {
        lemma_prefix_again(store, features, n - 1);
        assert(features.take(n).drop_last() =~= features.take(n - 1));
        assert(features.take(n).last() == features[n - 1]);
        lemma_batch_is_settled(store, features, n - 1);
    }
}

/// Writing a batch twice is writing it once: the second time no row is
/// added.
pub proof fn law_write_all_idempotent(store: StoreModel, features: Seq<FeatureModel>)
    ensures
        store.write_all(features).write_all(features) == store.write_all(features),
{
    lemma_prefix_again(store, features, features.len() as int);
    assert(features.take(features.len() as int) =~= features);
}

/// A cycle is idempotent: run twice on the same payload, the second run
/// leaves the store as the first left it, so it adds no feature, no geometry
/// and no property.
pub proof fn law_sync_idempotent(store: StoreModel, payload: Seq<char>)
    ensures
        synced(synced(store, payload), payload) == synced(store, payload),
{
    match payload_features(payload) {
        Ok(features) => {
            law_write_all_idempotent(store, features);
        },
        Err(_) => {},
    }
}

/// Of two features with one key the first wins: the second changes nothing,
/// whatever its properties. Where the store takes the first, it holds one
/// feature more than before, and the properties added are those of the
/// first.
pub proof fn law_first_of_a_key_wins(store: StoreModel, first: FeatureModel, second: FeatureModel)
    requires
        first.key() == second.key(),
    ensures
        store.write(first).write(second) == store.write(first),
        store.write_all(seq![first, second]) == store.write(first),
        !store.has_match(first.key()) && !store.is_full() ==> {
            &&& store.write(first).features.len() == store.features.len() + 1
            &&& store.write(first).geometries.len() == store.geometries.len() + 1
            &&& store.write(first).properties == store.properties + rows_of_properties(
                store.next_id(),
                first.properties,
            )
        },
{
    if store.has_match(first.key()) {
    } else if !store.is_full() {
        lemma_inserted_is_matched(store, first);
    }
    let both = seq![first, second];
    assert(both.drop_last() =~= seq![first]);
    let one = seq![first];
    assert(one.drop_last() =~= Seq::<FeatureModel>::empty());
    assert(one.last() == first);
    assert(store.write_all(one.drop_last()) == store);
    assert(store.write_all(one) == store.write(first));
    assert(both.last() == second);
}

/// Rows of other features put nothing among the properties of a feature.
pub proof fn lemma_foreign_rows(rows: Seq<PropertyRowModel>, id: int)
    requires
        forall|k: int| 0 <= k < rows.len() ==> (#[trigger] rows[k]).feature_id != id,
    ensures
        property_members(rows, id) == empty_members(),
    decreases rows.len(),
{
    if rows.len() > 0 {
        assert(rows.last() == rows[rows.len() - 1]);
        assert forall|k: int| 0 <= k < rows.drop_last().len() implies (
        #[trigger] rows.drop_last()[k]).feature_id != id by {
            assert(rows.drop_last()[k] == rows[k]);
        }
        lemma_foreign_rows(rows.drop_last(), id);
    }
}

/// An element without the member `properties` gives a feature without
/// properties.
pub proof fn law_absent_properties_normalize_empty(element: JsonTree)
    requires
        !(element.member("properties"@) is Object),
        feature_of(element) is Ok,
    ensures
        feature_of(element).unwrap().properties.len() == 0,
{
}

/// A feature without properties, once written, reads back with an empty
/// object as its properties.
pub proof fn law_no_properties_read_back_empty(store: StoreModel, feature: FeatureModel)
    requires
        store.valid(),
        feature.properties.len() == 0,
        !store.has_match(feature.key()),
        !store.is_full(),
    ensures
        feature_tree(store.write(feature), store.features.len() as int).member("properties"@)
            == JsonTree::Object(empty_members()),
{
    let after = store.write(feature);
    let id = store.next_id();
    let n = store.features.len() as int;
    assert(after.features[n].id == id);
    assert(after.properties =~= store.properties);
    assert forall|k: int| 0 <= k < store.properties.len() implies (
    #[trigger] store.properties[k]).feature_id != id by {
        let owner = store.properties[k].feature_id;
        assert(store.has_feature(owner));
        let i = choose|i: int| 0 <= i < n && (#[trigger] store.features[i]).id == owner;
        if i < n - 1 {
            assert(store.features[i].id < store.features[n - 1].id);
        }
    }
    lemma_foreign_rows(store.properties, id);
}

/// One element that cannot be read fails the elements as a whole.
pub proof fn lemma_one_failure_fails_all(elements: Seq<JsonTree>, n: int)
    requires
        0 <= n < elements.len(),
        feature_of(elements[n]) is Err,
    ensures
        features_of(elements) is Err,
    decreases elements.len(),
{
    if n < elements.len() - 1 {
        assert(elements.drop_last()[n] == elements[n]);
        lemma_one_failure_fails_all(elements.drop_last(), n);
    }
}

/// A payload whose document has no array `features` fails the cycle as a
/// failure of the format, and the cycle writes nothing.
pub proof fn law_missing_features_fails(store: StoreModel, payload: Seq<char>)
    requires
        json_parse(payload) is Some,
        !(json_parse(payload).unwrap().member("features"@) is Array),
    ensures
        payload_features(payload) == Err::<Seq<FeatureModel>, SyncError>(
            SyncError::Format(FormatError::MissingFeatures),
        ),
        failure_of(store, payload_features(payload)) == Some(
            SyncError::Format(FormatError::MissingFeatures),
        ),
        synced(store, payload) == store,
{
}

/// One element that cannot be read aborts the batch: the cycle fails, and
/// nothing is written, not even the elements before it.
pub proof fn law_failed_element_aborts(store: StoreModel, payload: Seq<char>, n: int)
    requires
        json_parse(payload) is Some,
        0 <= n < document_elements(json_parse(payload).unwrap()).len(),
        feature_of(document_elements(json_parse(payload).unwrap())[n]) is Err,
    ensures
        payload_features(payload) is Err,
        failure_of(store, payload_features(payload)) is Some,
        synced(store, payload) == store,
{
    lemma_one_failure_fails_all(document_elements(json_parse(payload).unwrap()), n);
}

/// Rows of other features before the rows of a feature put nothing among
/// its properties.
pub proof fn lemma_members_after_foreign(
    foreign: Seq<PropertyRowModel>,
    own: Seq<PropertyRowModel>,
    id: int,
)
    requires
        forall|k: int| 0 <= k < foreign.len() ==> (#[trigger] foreign[k]).feature_id != id,
    ensures
        property_members(foreign + own, id) == property_members(own, id),
    decreases own.len(),
{
    if own.len() == 0 {
        assert(foreign + own =~= foreign);
        lemma_foreign_rows(foreign, id);
    } else {
        assert((foreign + own).drop_last() =~= foreign + own.drop_last());
        assert((foreign + own).last() == own.last());
        lemma_members_after_foreign(foreign, own.drop_last(), id);
    }
}

/// What is written is read back: a feature that the store takes reads back
/// as a `Feature` with the type of its geometry, with the coordinates that
/// its text stands for, and with its own properties and no others.
pub proof fn law_written_feature_reads_back(store: StoreModel, feature: FeatureModel)
    requires
        store.valid(),
        !store.has_match(feature.key()),
        !store.is_full(),
    ensures
        feature_tree(store.write(feature), store.features.len() as int) == JsonTree::Object(
            empty_members().insert("type"@, JsonTree::Str("Feature"@)).insert(
                "geometry"@,
                JsonTree::Object(
                    empty_members().insert("type"@, JsonTree::Str(feature.geometry_type)).insert(
                        "coordinates"@,
                        decoded(feature.coordinates_text),
                    ),
                ),
            ).insert(
                "properties"@,
                JsonTree::Object(
                    property_members(
                        rows_of_properties(store.next_id(), feature.properties),
                        store.next_id(),
                    ),
                ),
            ),
        ),
{
    let after = store.write(feature);
    let id = store.next_id();
    let n = store.features.len() as int;
    let m = store.geometries.len() as int;
    assert(after.features[n].id == id);
    assert forall|i: int| 0 <= i < n implies (#[trigger] store.features[i]).id < id by {
        if i < n - 1 {
            assert(store.features[i].id < store.features[n - 1].id);
        }
    }
    assert forall|j: int| 0 <= j < m implies (#[trigger] store.geometries[j]).feature_id != id by {
        let owner = store.geometries[j].feature_id;
        assert(store.has_feature(owner));
        let i = choose|i: int| 0 <= i < n && (#[trigger] store.features[i]).id == owner;
        assert(store.features[i].id < id);
    }
    assert(after.geometries[m].feature_id == id);
    let chosen = choose|j: int|
        0 <= j < after.geometries.len() && (#[trigger] after.geometries[j]).feature_id == id;
    if chosen < m {
        assert(after.geometries[chosen] == store.geometries[chosen]);
    }
    assert(geometry_of(after, id) == after.geometries[m]);
    assert forall|k: int| 0 <= k < store.properties.len() implies (
    #[trigger] store.properties[k]).feature_id != id by {
        let owner = store.properties[k].feature_id;
        assert(store.has_feature(owner));
        let i = choose|i: int| 0 <= i < n && (#[trigger] store.features[i]).id == owner;
        assert(store.features[i].id < id);
    }
    lemma_members_after_foreign(
        store.properties,
        rows_of_properties(id, feature.properties),
        id,
    );
}

/// The feature at `i` and the geometry at `j` belong together.
pub open spec fn joined(store: StoreModel, i: int, j: int) -> bool {
    &&& 0 <= i < store.features.len()
    &&& 0 <= j < store.geometries.len()
    &&& store.features[i].id == store.geometries[j].feature_id
}

/// The key of the feature at `i` with the geometry at `j`.
pub open spec fn key_at(store: StoreModel, i: int, j: int) -> DedupKey {
    DedupKey {
        feature_type: store.features[i].feature_type,
        geometry_type: store.geometries[j].geometry_type,
        coordinates_text: store.geometries[j].coordinates,
    }
}

/// No key is stored twice.
pub open spec fn keys_unique(store: StoreModel) -> bool {
    forall|i: int, j: int, k: int, l: int|
        #![trigger joined(store, i, j), joined(store, k, l)]
        joined(store, i, j) && joined(store, k, l) && key_at(store, i, j) == key_at(store, k, l)
            ==> i == k && j == l
}

/// A store that holds no key twice holds none twice after another feature
/// was handed to it: however many cycles bring the same feature, one after
/// another, it is stored once.
pub proof fn law_keys_stay_unique(store: StoreModel, feature: FeatureModel)
    requires
        store.valid(),
        keys_unique(store),
    ensures
        keys_unique(store.write(feature)),
{
    if !store.has_match(feature.key()) && !store.is_full() {
        let after = store.insert(feature);
        let id = store.next_id();
        let n = store.features.len() as int;
        let m = store.geometries.len() as int;
        assert forall|i: int| 0 <= i < n implies (#[trigger] store.features[i]).id < id by {
            if i < n - 1 {
                assert(store.features[i].id < store.features[n - 1].id);
            }
        }
        assert forall|j: int| 0 <= j < m implies (#[trigger] store.geometries[j]).feature_id
            < id by {
            let owner = store.geometries[j].feature_id;
            assert(store.has_feature(owner));
            let i = choose|i: int| 0 <= i < n && (#[trigger] store.features[i]).id == owner;
            assert(store.features[i].id < id);
        }
        assert forall|i: int, j: int| #[trigger] joined(after, i, j) implies (i == n && j == m) || (
        joined(store, i, j) && key_at(store, i, j) == key_at(after, i, j)) by {
            if i < n {
                assert(after.features[i] == store.features[i]);
                assert(store.features[i].id < id);
            }
            if j < m {
                assert(after.geometries[j] == store.geometries[j]);
                assert(store.geometries[j].feature_id < id);
            }
        }
        assert forall|i: int, j: int, k: int, l: int|
            #![trigger joined(after, i, j), joined(after, k, l)]
            joined(after, i, j) && joined(after, k, l) && key_at(after, i, j) == key_at(
                after,
                k,
                l,
            ) implies i == k && j == l by {
            assert(key_at(after, n, m) == feature.key());
            if i == n && j == m {
                if !(k == n && l == m) {
                    assert(store.pair_matches(k, l, feature.key()));
                }
            } else if k == n && l == m {
                assert(store.pair_matches(i, j, feature.key()));
            } else {
                assert(joined(store, i, j) && joined(store, k, l));
            }
        }
    }
}

/// The same for a batch: cycles that follow one another keep every key
/// stored once.
pub proof fn law_batches_keep_keys_unique(store: StoreModel, features: Seq<FeatureModel>)
    requires
        store.valid(),
        keys_unique(store),
    ensures
        keys_unique(store.write_all(features)),
        store.write_all(features).valid(),
    decreases features.len(),
{
    if features.len() > 0 {
        law_batches_keep_keys_unique(store, features.drop_last());
        law_keys_stay_unique(store.write_all(features.drop_last()), features.last());
        crate::store::lemma_write_valid(store.write_all(features.drop_last()), features.last());
    }
}

} // verus!
