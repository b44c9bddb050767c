use geosync::error::SyncError;
use geosync::feature::{NormalizedFeature, Property};
use geosync::store::{FeatureRow, GeometryRow, PropertyRow, Store, WriteOutcome, WriteSummary};
use geosync::validate::rows_are_valid;

fn feature(kind: &str, geometry: &str, coordinates: &str, properties: &[(&str, &str)]) -> NormalizedFeature {
    NormalizedFeature {
        feature_type: kind.to_string(),
        geometry_type: geometry.to_string(),
        coordinates_text: coordinates.to_string(),
        properties: properties
            .iter()
            .map(|(k, v)| Property { key: k.to_string(), value: v.to_string() })
            .collect(),
    }
}

fn feature_row(id: i64, kind: &str) -> FeatureRow {
    FeatureRow { id, feature_type: kind.to_string() }
}

fn geometry_row(feature_id: i64, kind: &str, coordinates: &str) -> GeometryRow {
    GeometryRow {
        feature_id,
        geometry_type: kind.to_string(),
        coordinates: coordinates.to_string(),
    }
}

fn property_row(feature_id: i64, key: &str, value: &str) -> PropertyRow {
    PropertyRow {
        feature_id,
        property_key: key.to_string(),
        property_value: value.to_string(),
    }
}

#[test]
fn new_store_is_empty() {
    let store = Store::new();
    assert_eq!(store.features().len(), 0);
    assert_eq!(store.geometries().len(), 0);
    assert_eq!(store.properties().len(), 0);
}

#[test]
fn write_adds_one_row_per_relation_and_property() {
    let mut store = Store::new();
    let f = feature("Feature", "Point", "[1,2]", &[("name", "a"), ("kind", "b")]);
    assert_eq!(store.write_if_new(&f), Ok(WriteOutcome::Inserted));
    assert_eq!(store.features().len(), 1);
    assert_eq!(store.features()[0].id, 1);
    assert_eq!(store.features()[0].feature_type, "Feature");
    assert_eq!(store.geometries().len(), 1);
    assert_eq!(store.geometries()[0].feature_id, 1);
    assert_eq!(store.geometries()[0].geometry_type, "Point");
    assert_eq!(store.geometries()[0].coordinates, "[1,2]");
    assert_eq!(store.properties().len(), 2);
    assert_eq!(store.properties()[0].feature_id, 1);
    assert_eq!(store.properties()[0].property_key, "name");
    assert_eq!(store.properties()[0].property_value, "a");
    assert_eq!(store.properties()[1].property_key, "kind");
    assert_eq!(store.properties()[1].property_value, "b");
}

#[test]
fn write_skips_a_stored_key_and_drops_the_properties() {
    let mut store = Store::new();
    let first = feature("Feature", "Point", "[1,2]", &[("name", "a")]);
    let again = feature("Feature", "Point", "[1,2]", &[("name", "z"), ("more", "y")]);
    assert_eq!(store.write_if_new(&first), Ok(WriteOutcome::Inserted));
    assert!(store.contains(&again));
    assert_eq!(store.write_if_new(&again), Ok(WriteOutcome::Skipped));
    assert_eq!(store.features().len(), 1);
    assert_eq!(store.properties().len(), 1);
    assert_eq!(store.properties()[0].property_value, "a");
}

#[test]
fn key_is_all_three_of_type_geometry_and_coordinates() {
    let mut store = Store::new();
    store.write_if_new(&feature("Feature", "Point", "[1,2]", &[])).unwrap();
    assert!(store.contains(&feature("Feature", "Point", "[1,2]", &[("p", "q")])));
    assert!(!store.contains(&feature("Other", "Point", "[1,2]", &[])));
    assert!(!store.contains(&feature("Feature", "MultiPoint", "[1,2]", &[])));
    assert!(!store.contains(&feature("Feature", "Point", "[1, 2]", &[])));
}

#[test]
fn key_is_not_split_across_features() {
    let mut store = Store::new();
    store.write_if_new(&feature("A", "Point", "[1]", &[])).unwrap();
    store.write_if_new(&feature("B", "Line", "[2]", &[])).unwrap();
    assert!(!store.contains(&feature("A", "Line", "[2]", &[])));
    assert!(!store.contains(&feature("B", "Point", "[1]", &[])));
    assert!(store.contains(&feature("B", "Line", "[2]", &[])));
}

#[test]
fn identities_count_up_from_one() {
    let mut store = Store::new();
    for n in 0..4 {
        let coordinates = format!("[{}]", n);
        store.write_if_new(&feature("Feature", "Point", &coordinates, &[])).unwrap();
    }
    let ids: Vec<i64> = store.features().iter().map(|f| f.id).collect();
    assert_eq!(ids, vec![1, 2, 3, 4]);
}

#[test]
fn batch_counts_what_it_wrote_and_what_it_skipped() {
    let mut store = Store::new();
    let batch = vec![
        feature("Feature", "Point", "[1]", &[("a", "1")]),
        feature("Feature", "Point", "[2]", &[]),
        feature("Feature", "Point", "[1]", &[("a", "2")]),
    ];
    assert_eq!(store.write_all(&batch), Ok(WriteSummary { inserted: 2, skipped: 1 }));
    assert_eq!(store.write_all(&batch), Ok(WriteSummary { inserted: 0, skipped: 3 }));
    assert_eq!(store.features().len(), 2);
    assert_eq!(store.properties().len(), 1);
    assert_eq!(store.properties()[0].property_value, "1");
}

#[test]
fn rows_that_fit_make_a_store() {
    let store = Store::from_rows(
        vec![feature_row(3, "Feature"), feature_row(7, "Feature")],
        vec![geometry_row(7, "Point", "[7]"), geometry_row(3, "Point", "[3]")],
        vec![property_row(3, "k", "v"), property_row(7, "k", "w"), property_row(3, "k", "x")],
    );
    let mut store = store.ok().unwrap();
    assert_eq!(store.features().len(), 2);
    assert!(store.contains(&feature("Feature", "Point", "[3]", &[])));
    assert_eq!(
        store.write_if_new(&feature("Feature", "Point", "[8]", &[])),
        Ok(WriteOutcome::Inserted)
    );
    assert_eq!(store.features()[2].id, 8);
}

#[test]
fn rows_that_break_the_invariant_are_refused() {
    let features = vec![feature_row(1, "Feature"), feature_row(2, "Feature")];
    let geometries = vec![geometry_row(1, "Point", "[1]"), geometry_row(2, "Point", "[2]")];
    assert!(rows_are_valid(&features, &geometries, &vec![]));

    let unordered = vec![feature_row(2, "Feature"), feature_row(1, "Feature")];
    assert!(!rows_are_valid(&unordered, &geometries, &vec![]));
    let repeated = vec![feature_row(1, "Feature"), feature_row(1, "Feature")];
    assert!(!rows_are_valid(&repeated, &geometries, &vec![]));

    let orphan_geometry = vec![
        geometry_row(1, "Point", "[1]"),
        geometry_row(2, "Point", "[2]"),
        geometry_row(5, "Point", "[5]"),
    ];
    assert!(!rows_are_valid(&features, &orphan_geometry, &vec![]));
    let two_geometries = vec![
        geometry_row(1, "Point", "[1]"),
        geometry_row(2, "Point", "[2]"),
        geometry_row(1, "Point", "[3]"),
    ];
    assert!(!rows_are_valid(&features, &two_geometries, &vec![]));
    let no_geometry = vec![geometry_row(1, "Point", "[1]")];
    assert!(!rows_are_valid(&features, &no_geometry, &vec![]));
    let orphan_property = vec![property_row(9, "k", "v")];
    assert!(!rows_are_valid(&features, &geometries, &orphan_property));

    let refused = Store::from_rows(features, no_geometry, vec![]);
    assert_eq!(refused.err(), Some(SyncError::Storage));
}

#[test]
fn store_without_an_identity_left_refuses_a_new_feature() {
    let store = Store::from_rows(
        vec![feature_row(i64::MAX, "Feature")],
        vec![geometry_row(i64::MAX, "Point", "[0]")],
        vec![],
    );
    let mut store = store.ok().unwrap();
    let fresh = feature("Feature", "Point", "[1]", &[("k", "v")]);
    assert_eq!(store.write_if_new(&fresh), Err(SyncError::Storage));
    assert_eq!(store.features().len(), 1);
    assert_eq!(store.geometries().len(), 1);
    assert_eq!(store.properties().len(), 0);
    let known = feature("Feature", "Point", "[0]", &[]);
    assert_eq!(store.write_if_new(&known), Ok(WriteOutcome::Skipped));
    assert_eq!(store.write_all(&vec![known, fresh]), Err(SyncError::Storage));
    assert_eq!(store.features().len(), 1);
}
