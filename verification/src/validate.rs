//! Checking rows that come from outside, before they become a store.

use crate::store::{feature_rows, geometry_rows, property_rows};
use crate::store::{FeatureRow, GeometryRow, PropertyRow, StoreModel};
use vstd::prelude::*;

verus! {

/// The relations that the rows make up.
pub open spec fn rows_model(
    features: Seq<FeatureRow>,
    geometries: Seq<GeometryRow>,
    properties: Seq<PropertyRow>,
) -> StoreModel {
    StoreModel {
        features: feature_rows(features),
        geometries: geometry_rows(geometries),
        properties: property_rows(properties),
    }
}

/// A feature among `features` has the identity `id`.
pub open spec fn has_owner(features: Seq<FeatureRow>, id: int) -> bool {
    exists|i: int| 0 <= i < features.len() && (#[trigger] features[i]).id == id
}

/// A geometry at or after `from` belongs to the feature `id`.
pub open spec fn has_geometry_row(geometries: Seq<GeometryRow>, id: int, from: int) -> bool {
    exists|j: int| from <= j < geometries.len() && (#[trigger] geometries[j]).feature_id == id
}

/// The store's invariant, said of the rows themselves.
pub open spec fn rows_valid(
    features: Seq<FeatureRow>,
    geometries: Seq<GeometryRow>,
    properties: Seq<PropertyRow>,
) -> bool {
    &&& forall|i: int, j: int|
        0 <= i < j < features.len() ==> (#[trigger] features[i]).id < (#[trigger] features[j]).id
    &&& forall|j: int|
        0 <= j < geometries.len() ==> has_owner(features, (#[trigger] geometries[j]).feature_id as int)
    &&& forall|j: int|
        0 <= j < geometries.len() ==> !has_geometry_row(
            geometries,
            (#[trigger] geometries[j]).feature_id as int,
            j + 1,
        )
    &&& forall|i: int|
        0 <= i < features.len() ==> has_geometry_row(geometries, (#[trigger] features[i]).id as int, 0)
    &&& forall|k: int|
        0 <= k < properties.len() ==> has_owner(features, (#[trigger] properties[k]).feature_id as int)
}

/// Whether a feature has the identity `id`.
fn has_id(features: &Vec<FeatureRow>, id: i64) -> (r: bool)
    ensures
        r == has_owner(features@, id as int),
{
    let mut i: usize = 0;
    while i < features.len()
        invariant
            0 <= i <= features.len(),
            forall|k: int| 0 <= k < i ==> (#[trigger] features@[k]).id != id,
        decreases features.len() - i,
    {
        if features[i].id == id {
            return true;
        }
        i += 1;
    }
    false
}

/// Whether a geometry at or after `from` belongs to the feature `id`.
fn has_geometry_from(geometries: &Vec<GeometryRow>, id: i64, from: usize) -> (r: bool)
    ensures
        r == has_geometry_row(geometries@, id as int, from as int),
{
    let mut j: usize = from;
    while j < geometries.len()
        invariant
            from <= j,
            forall|k: int| from <= k < j ==> (#[trigger] geometries@[k]).feature_id != id,
        decreases geometries.len() - j,
    {
        if geometries[j].feature_id == id {
            return true;
        }
        j += 1;
    }
    false
}

/// Whether the identities grow along the features.
fn identities_grow(features: &Vec<FeatureRow>) -> (r: bool)
    ensures
        r == forall|i: int, j: int|
            0 <= i < j < features@.len() ==> (#[trigger] features@[i]).id < (
            #[trigger] features@[j]).id,
{
    if features.len() < 2 {
        return true;
    }
    let mut i: usize = 1;
    while i < features.len()
        invariant
            1 <= i <= features.len(),
            forall|a: int, b: int|
                0 <= a < b < i ==> (#[trigger] features@[a]).id < (#[trigger] features@[b]).id,
        decreases features.len() - i,
    {
        if features[i - 1].id >= features[i].id {
            assert(!(features@[i - 1].id < features@[i as int].id));
            return false;
        }
        assert forall|a: int, b: int| 0 <= a < b < i + 1 implies (#[trigger] features@[a]).id < (
        #[trigger] features@[b]).id by {
            if b == i && a < i - 1 {
                assert(features@[a].id < features@[i - 1].id);
            }
        }
        i += 1;
    }
    true
}

/// Whether the rows make up a valid store.
pub fn rows_are_valid(
    features: &Vec<FeatureRow>,
    geometries: &Vec<GeometryRow>,
    properties: &Vec<PropertyRow>,
) -> (r: bool)
    ensures
        r == rows_model(features@, geometries@, properties@).valid(),
{
    proof {
        lemma_same_validity(features@, geometries@, properties@);
    }
    if !identities_grow(features) {
        return false;
    }
    let mut j: usize = 0;
    while j < geometries.len()
        invariant
            0 <= j <= geometries.len(),
            forall|a: int|
                0 <= a < j ==> has_owner(features@, (#[trigger] geometries@[a]).feature_id as int),
            forall|a: int|
                0 <= a < j ==> !has_geometry_row(
                    geometries@,
                    (#[trigger] geometries@[a]).feature_id as int,
                    a + 1,
                ),
            rows_valid(features@, geometries@, properties@) == rows_model(
                features@,
                geometries@,
                properties@,
            ).valid(),
        decreases geometries.len() - j,
    {
        let id: i64 = geometries[j].feature_id;
        if !has_id(features, id) || has_geometry_from(geometries, id, j + 1) {
            return false;
        }
        j += 1;
    }
    let mut i: usize = 0;
    while i < features.len()
        invariant
            0 <= i <= features.len(),
            forall|a: int|
                0 <= a < i ==> has_geometry_row(geometries@, (#[trigger] features@[a]).id as int, 0),
            rows_valid(features@, geometries@, properties@) == rows_model(
                features@,
                geometries@,
                properties@,
            ).valid(),
        decreases features.len() - i,
    {
        if !has_geometry_from(geometries, features[i].id, 0) {
            return false;
        }
        i += 1;
    }
    let mut k: usize = 0;
    while k < properties.len()
        invariant
            0 <= k <= properties.len(),
            forall|a: int|
                0 <= a < k ==> has_owner(features@, (#[trigger] properties@[a]).feature_id as int),
            rows_valid(features@, geometries@, properties@) == rows_model(
                features@,
                geometries@,
                properties@,
            ).valid(),
        decreases properties.len() - k,
    {
        if !has_id(features, properties[k].feature_id) {
            return false;
        }
        k += 1;
    }
    true
}

/// The invariant holds of the rows just when it holds of their model.
pub proof fn lemma_same_validity(
    features: Seq<FeatureRow>,
    geometries: Seq<GeometryRow>,
    properties: Seq<PropertyRow>,
)
    ensures
        rows_valid(features, geometries, properties) == rows_model(
            features,
            geometries,
            properties,
        ).valid(),
{
    let model = rows_model(features, geometries, properties);
    if rows_valid(features, geometries, properties) {
        assert forall|i: int, j: int| 0 <= i < j < model.features.len() implies (
        #[trigger] model.features[i]).id < (#[trigger] model.features[j]).id by {
            assert(features[i].id < features[j].id);
        }
        assert forall|j: int| 0 <= j < model.geometries.len() implies model.has_feature(
            (#[trigger] model.geometries[j]).feature_id,
        ) by {
            assert(has_owner(features, geometries[j].feature_id as int));
            let i = choose|i: int|
                0 <= i < features.len() && (#[trigger] features[i]).id == geometries[j].feature_id;
            assert(model.features[i].id == model.geometries[j].feature_id);
        }
        assert forall|i: int| 0 <= i < model.features.len() implies model.has_geometry(
            (#[trigger] model.features[i]).id,
        ) by {
            assert(has_geometry_row(geometries, features[i].id as int, 0));
            let j = choose|j: int|
                0 <= j < geometries.len() && (#[trigger] geometries[j]).feature_id
                    == features[i].id;
            assert(model.geometries[j].feature_id == model.features[i].id);
        }
        assert forall|j: int, k: int| 0 <= j < k < model.geometries.len() implies (
        #[trigger] model.geometries[j]).feature_id != (
        #[trigger] model.geometries[k]).feature_id by {
            assert(!has_geometry_row(geometries, geometries[j].feature_id as int, j + 1));
            assert(geometries[k].feature_id != geometries[j].feature_id);
        }
        assert forall|k: int| 0 <= k < model.properties.len() implies model.has_feature(
            (#[trigger] model.properties[k]).feature_id,
        ) by {
            assert(has_owner(features, properties[k].feature_id as int));
            let i = choose|i: int|
                0 <= i < features.len() && (#[trigger] features[i]).id
                    == properties[k].feature_id;
            assert(model.features[i].id == model.properties[k].feature_id);
        }
    }
    if model.valid() {
        assert forall|i: int, j: int| 0 <= i < j < features.len() implies (
        #[trigger] features[i]).id < (#[trigger] features[j]).id by {
            assert(model.features[i].id < model.features[j].id);
        }
        assert forall|j: int| 0 <= j < geometries.len() implies has_owner(
            features,
            (#[trigger] geometries[j]).feature_id as int,
        ) by {
            assert(model.has_feature(model.geometries[j].feature_id));
            let i = choose|i: int|
                0 <= i < model.features.len() && (#[trigger] model.features[i]).id
                    == model.geometries[j].feature_id;
            assert(features[i].id == geometries[j].feature_id);
        }
        assert forall|j: int| 0 <= j < geometries.len() implies !has_geometry_row(
            geometries,
            (#[trigger] geometries[j]).feature_id as int,
            j + 1,
        ) by {
            if has_geometry_row(geometries, geometries[j].feature_id as int, j + 1) {
                let k = choose|k: int|
                    j + 1 <= k < geometries.len() && (#[trigger] geometries[k]).feature_id
                        == geometries[j].feature_id;
                assert(model.geometries[j].feature_id != model.geometries[k].feature_id);
            }
        }
        assert forall|i: int| 0 <= i < features.len() implies has_geometry_row(
            geometries,
            (#[trigger] features[i]).id as int,
            0,
        ) by {
            assert(model.has_geometry(model.features[i].id));
            let j = choose|j: int|
                0 <= j < model.geometries.len() && (#[trigger] model.geometries[j]).feature_id
                    == model.features[i].id;
            assert(geometries[j].feature_id == features[i].id);
        }
        assert forall|k: int| 0 <= k < properties.len() implies has_owner(
            features,
            (#[trigger] properties[k]).feature_id as int,
        ) by {
            assert(model.has_feature(model.properties[k].feature_id));
            let i = choose|i: int|
                0 <= i < model.features.len() && (#[trigger] model.features[i]).id
                    == model.properties[k].feature_id;
            assert(features[i].id == properties[k].feature_id);
        }
    }
}

} // verus!
