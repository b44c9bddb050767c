//! The reader: from the store back to a GeoJSON feature collection.
//!
//! Every stored feature becomes one object of the collection, in the order of
//! the identities. It carries its geometry, the coordinates parsed back from
//! their text, and its properties by key. Where a key occurs in several rows
//! the last row wins; coordinates that do not parse become the empty array.

use crate::json::{array_value, decode_coordinates, map_insert, map_new, object_value};
use crate::json::{contents_of, decoded, empty_members, json_contents, json_map_contents};
use crate::json::{string_value, JsonTree};
use crate::store::{geometry_rows, property_rows};
use crate::store::{GeometryRow, GeometryRowModel, PropertyRow, PropertyRowModel, Store, StoreModel};
use serde_json::Value;
use vstd::prelude::*;

verus! {

/// The properties of the feature `id` as members of an object: each of its
/// rows in turn puts its value under its key.
pub open spec fn property_members(rows: Seq<PropertyRowModel>, id: int) -> Map<Seq<char>, JsonTree>
    decreases rows.len(),
{
    if rows.len() == 0 {
        empty_members()
    } else {
        let before = property_members(rows.drop_last(), id);
        if rows.last().feature_id == id {
            before.insert(rows.last().key, JsonTree::Str(rows.last().value))
        } else {
            before
        }
    }
}

/// The object that stands for a geometry.
pub open spec fn geometry_tree(geometry: GeometryRowModel) -> JsonTree {
    JsonTree::Object(
        empty_members().insert("type"@, JsonTree::Str(geometry.geometry_type)).insert(
            "coordinates"@,
            decoded(geometry.coordinates),
        ),
    )
}

/// The geometry of the feature `id`.
pub open spec fn geometry_of(store: StoreModel, id: int) -> GeometryRowModel {
    store.geometries[choose|j: int|
        0 <= j < store.geometries.len() && (#[trigger] store.geometries[j]).feature_id == id]
}

/// The object that stands for the feature at `i`.
pub open spec fn feature_tree(store: StoreModel, i: int) -> JsonTree {
    let id = store.features[i].id;
    JsonTree::Object(
        empty_members().insert("type"@, JsonTree::Str("Feature"@)).insert(
            "geometry"@,
            geometry_tree(geometry_of(store, id)),
        ).insert("properties"@, JsonTree::Object(property_members(store.properties, id))),
    )
}

/// The objects that stand for the first `n` features.
pub open spec fn feature_trees(store: StoreModel, n: int) -> Seq<JsonTree> {
    Seq::new(n as nat, |i: int| feature_tree(store, i))
}

/// The feature collection that stands for the store.
pub open spec fn collection_tree(store: StoreModel) -> JsonTree {
    JsonTree::Object(
        empty_members().insert("type"@, JsonTree::Str("FeatureCollection"@)).insert(
            "features"@,
            JsonTree::Array(feature_trees(store, store.features.len() as int)),
        ),
    )
}

/// The place of the geometry of the feature `id`.
fn geometry_index(geometries: &Vec<GeometryRow>, id: i64) -> (j: usize)
    requires
        exists|k: int| 0 <= k < geometries@.len() && (#[trigger] geometries@[k]).feature_id == id,
    ensures
        j < geometries@.len(),
        geometries@[j as int].feature_id == id,
{
    let mut j: usize = 0;
    while j < geometries.len()
        invariant
            0 <= j <= geometries.len(),
            forall|k: int| 0 <= k < j ==> (#[trigger] geometries@[k]).feature_id != id,
        decreases geometries.len() - j,
    {
        if geometries[j].feature_id == id {
            return j;
        }
        j += 1;
    }
    proof {
        let k = choose|k: int|
            0 <= k < geometries@.len() && (#[trigger] geometries@[k]).feature_id == id;
        assert(geometries@[k].feature_id != id);
    }
    j
}

/// The object for a geometry.
fn geometry_value(geometry: &GeometryRow) -> (r: Value)
    ensures
        json_contents(r) == geometry_tree(geometry@),
{
    let mut members = map_new();
    map_insert(&mut members, "type".to_owned(), string_value(geometry.geometry_type.clone()));
    map_insert(
        &mut members,
        "coordinates".to_owned(),
        decode_coordinates(geometry.coordinates.as_str()),
    );
    object_value(members)
}

/// The object for the properties of the feature `id`.
fn properties_value(rows: &Vec<PropertyRow>, id: i64) -> (r: Value)
    ensures
        json_contents(r) == JsonTree::Object(property_members(property_rows(rows@), id as int)),
{
    let ghost models = property_rows(rows@);
    let mut members = map_new();
    let mut k: usize = 0;
    assert(models.take(0) =~= Seq::empty());
    while k < rows.len()
        invariant
            0 <= k <= rows.len(),
            models == property_rows(rows@),
            json_map_contents(members) == property_members(models.take(k as int), id as int),
        decreases rows.len() - k,
    {
        assert(models.take(k + 1).drop_last() =~= models.take(k as int));
        assert(models.take(k + 1).last() == rows@[k as int]@);
        let row = &rows[k];
        if row.feature_id == id {
            map_insert(
                &mut members,
                row.property_key.clone(),
                string_value(row.property_value.clone()),
            );
        }
        k += 1;
    }
    assert(models.take(k as int) =~= models);
    object_value(members)
}

/// The feature collection that stands for the store: the document that a
/// reader of the synchronised data is given.
pub fn get_synced_data(store: &Store) -> (r: Value)
    requires
        store.wf(),
    ensures
        json_contents(r) == collection_tree(store@),
{
    let features = store.features();
    let geometries = store.geometries();
    let properties = store.properties();
    let mut items: Vec<Value> = Vec::new();
    let mut i: usize = 0;
    assert(contents_of(items@) =~= feature_trees(store@, 0));
    while i < features.len()
        invariant
            0 <= i <= features.len(),
            store.wf(),
            crate::store::feature_rows(features@) == store@.features,
            geometry_rows(geometries@) == store@.geometries,
            property_rows(properties@) == store@.properties,
            contents_of(items@) == feature_trees(store@, i as int),
        decreases features.len() - i,
    {
        let id: i64 = features[i].id;
        let ghost model = store@;
        proof {
            assert(model.features[i as int].id == id);
            assert(model.has_geometry(id as int));
            let w = choose|j: int|
                0 <= j < model.geometries.len() && (#[trigger] model.geometries[j]).feature_id
                    == id;
            assert(geometries@[w]@ == model.geometries[w]);
            assert(geometries@[w].feature_id == id);
        }
        let j = geometry_index(geometries, id);
        proof {
            let w = choose|j: int|
                0 <= j < model.geometries.len() && (#[trigger] model.geometries[j]).feature_id
                    == id;
            assert(model.geometries[j as int] == geometries@[j as int]@);
            assert(model.geometries[j as int].feature_id == id);
            if w < j {
                assert(model.geometries[w].feature_id != model.geometries[j as int].feature_id);
            } else if j < w {
                assert(model.geometries[j as int].feature_id != model.geometries[w].feature_id);
            }
            assert(geometry_of(model, id as int) == geometries@[j as int]@);
        }
        let mut members = map_new();
        map_insert(&mut members, "type".to_owned(), string_value("Feature".to_owned()));
        map_insert(&mut members, "geometry".to_owned(), geometry_value(&geometries[j]));
        map_insert(&mut members, "properties".to_owned(), properties_value(properties, id));
        let item = object_value(members);
        assert(json_contents(item) == feature_tree(model, i as int));
        let ghost before = contents_of(items@);
        items.push(item);
        assert(contents_of(items@) =~= before.push(json_contents(item)));
        assert(before.push(feature_tree(model, i as int)) =~= feature_trees(model, i + 1));
        i += 1;
    }
    let mut members = map_new();
    map_insert(&mut members, "type".to_owned(), string_value("FeatureCollection".to_owned()));
    map_insert(&mut members, "features".to_owned(), array_value(items));
    object_value(members)
}

} // verus!
