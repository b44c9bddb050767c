use geosync::json::decode_coordinates;
use geosync::reader::get_synced_data;
use geosync::store::{FeatureRow, GeometryRow, PropertyRow, Store};
use serde_json::Value;

fn json(text: &str) -> Value {
    serde_json::from_str(text).unwrap()
}

fn store_of(
    features: &[(i64, &str)],
    geometries: &[(i64, &str, &str)],
    properties: &[(i64, &str, &str)],
) -> Store {
    Store::from_rows(
        features
            .iter()
            .map(|(id, kind)| FeatureRow { id: *id, feature_type: kind.to_string() })
            .collect(),
        geometries
            .iter()
            .map(|(id, kind, coordinates)| GeometryRow {
                feature_id: *id,
                geometry_type: kind.to_string(),
                coordinates: coordinates.to_string(),
            })
            .collect(),
        properties
            .iter()
            .map(|(id, key, value)| PropertyRow {
                feature_id: *id,
                property_key: key.to_string(),
                property_value: value.to_string(),
            })
            .collect(),
    )
    .ok()
    .unwrap()
}

#[test]
fn stored_coordinates_are_parsed_back() {
    assert_eq!(decode_coordinates("[[1,2],[3,4.5]]"), json("[[1,2],[3,4.5]]"));
    assert_eq!(decode_coordinates("null"), Value::Null);
    assert_eq!(decode_coordinates("12"), json("12"));
}

#[test]
fn coordinates_that_do_not_parse_become_the_empty_array() {
    assert_eq!(decode_coordinates("[1,"), json("[]"));
    assert_eq!(decode_coordinates(""), json("[]"));
    assert_eq!(decode_coordinates("garbage"), json("[]"));
}

#[test]
fn empty_store_reads_as_an_empty_collection() {
    let document = get_synced_data(&Store::new());
    assert_eq!(document, json(r#"{"type":"FeatureCollection","features":[]}"#));
}

#[test]
fn bad_coordinates_degrade_one_feature_only() {
    let store = store_of(
        &[(1, "Feature"), (2, "Feature")],
        &[(1, "Point", "[1,"), (2, "Point", "[2,2]")],
        &[],
    );
    let expected = json(
        r#"{"type":"FeatureCollection","features":[
            {"type":"Feature","geometry":{"type":"Point","coordinates":[]},"properties":{}},
            {"type":"Feature","geometry":{"type":"Point","coordinates":[2,2]},"properties":{}}
        ]}"#,
    );
    assert_eq!(get_synced_data(&store), expected);
}

#[test]
fn last_row_of_a_key_wins() {
    let store = store_of(
        &[(1, "Feature")],
        &[(1, "Point", "[0,0]")],
        &[(1, "name", "first"), (1, "other", "x"), (1, "name", "last")],
    );
    let document = get_synced_data(&store);
    assert_eq!(
        document["features"][0]["properties"],
        json(r#"{"name":"last","other":"x"}"#)
    );
}

#[test]
fn properties_stay_with_their_feature() {
    let store = store_of(
        &[(1, "Feature"), (2, "Feature"), (3, "Feature")],
        &[(2, "Line", "[[0,0],[1,1]]"), (1, "Point", "[0,0]"), (3, "Point", "[3,3]")],
        &[(2, "name", "two"), (1, "name", "one"), (2, "kind", "road")],
    );
    let expected = json(
        r#"{"type":"FeatureCollection","features":[
            {"type":"Feature","geometry":{"type":"Point","coordinates":[0,0]},"properties":{"name":"one"}},
            {"type":"Feature","geometry":{"type":"Line","coordinates":[[0,0],[1,1]]},"properties":{"name":"two","kind":"road"}},
            {"type":"Feature","geometry":{"type":"Point","coordinates":[3,3]},"properties":{}}
        ]}"#,
    );
    assert_eq!(get_synced_data(&store), expected);
}

#[test]
fn every_feature_reads_as_type_feature() {
    let store = store_of(&[(1, "Whatever")], &[(1, "Point", "[0,0]")], &[]);
    let document = get_synced_data(&store);
    assert_eq!(document["type"], "FeatureCollection");
    assert_eq!(document["features"][0]["type"], "Feature");
    assert_eq!(document["features"].as_array().unwrap().len(), 1);
}

#[test]
fn property_with_an_empty_key_is_read_back() {
    let store = store_of(&[(1, "Feature")], &[(1, "Point", "[0,0]")], &[(1, "", "v")]);
    let document = get_synced_data(&store);
    assert_eq!(document["features"][0]["properties"], json(r#"{"":"v"}"#));
}

#[test]
fn property_values_read_back_as_strings() {
    let store = store_of(&[(1, "Feature")], &[(1, "Point", "[0,0]")], &[(1, "count", "5")]);
    let document = get_synced_data(&store);
    assert_eq!(document["features"][0]["properties"]["count"], Value::String("5".to_string()));
}
