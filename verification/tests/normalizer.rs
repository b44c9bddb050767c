use geosync::error::{FormatError, SyncError};
use geosync::normalize::{normalize, normalize_document, normalize_feature};
use serde_json::Value;

fn json(text: &str) -> Value {
    serde_json::from_str(text).unwrap()
}

#[test]
fn normalizes_type_geometry_and_coordinates() {
    let features = normalize(
        r#"{"features":[{"type":"Feature","geometry":{"type":"LineString","coordinates":[[0, 1], [2.5, -3]]},"properties":{"name":"a"}}]}"#,
    )
    .unwrap();
    assert_eq!(features.len(), 1);
    assert_eq!(features[0].feature_type, "Feature");
    assert_eq!(features[0].geometry_type, "LineString");
    assert_eq!(features[0].coordinates_text, "[[0,1],[2.5,-3]]");
    assert_eq!(features[0].properties.len(), 1);
    assert_eq!(features[0].properties[0].key, "name");
    assert_eq!(features[0].properties[0].value, "a");
}

#[test]
fn coordinates_text_is_the_same_for_the_same_value() {
    let spaced = normalize(
        r#"{"features":[{"type":"Feature","geometry":{"type":"Point","coordinates":[ 1 ,  2 ]}}]}"#,
    )
    .unwrap();
    let tight = normalize(
        r#"{"features":[{"geometry":{"coordinates":[1,2],"type":"Point"},"type":"Feature"}]}"#,
    )
    .unwrap();
    assert_eq!(spaced[0].coordinates_text, "[1,2]");
    assert_eq!(tight[0].coordinates_text, "[1,2]");
}

#[test]
fn missing_coordinates_are_kept_as_null() {
    let features =
        normalize(r#"{"features":[{"type":"Feature","geometry":{"type":"Point"}}]}"#).unwrap();
    assert_eq!(features[0].coordinates_text, "null");
}

#[test]
fn property_values_that_are_no_strings_become_their_json_text() {
    let features = normalize(
        r#"{"features":[{"type":"Feature","geometry":{"type":"Point","coordinates":[0,0]},
            "properties":{"count":5,"flag":true,"nothing":null,"list":[1,"x"],"inner":{"k":"v"},"text":"plain"}}]}"#,
    )
    .unwrap();
    let mut pairs: Vec<(String, String)> = features[0]
        .properties
        .iter()
        .map(|p| (p.key.clone(), p.value.clone()))
        .collect();
    pairs.sort();
    let expected: Vec<(String, String)> = [
        ("count", "5"),
        ("flag", "true"),
        ("inner", "{\"k\":\"v\"}"),
        ("list", "[1,\"x\"]"),
        ("nothing", "null"),
        ("text", "plain"),
    ]
    .iter()
    .map(|(k, v)| (k.to_string(), v.to_string()))
    .collect();
    assert_eq!(pairs, expected);
}

#[test]
fn properties_that_are_no_object_give_no_properties() {
    for properties in ["null", "[1,2]", "\"text\"", "3"] {
        let payload = format!(
            r#"{{"features":[{{"type":"Feature","geometry":{{"type":"Point","coordinates":[0,0]}},"properties":{}}}]}}"#,
            properties
        );
        let features = normalize(&payload).unwrap();
        assert_eq!(features[0].properties.len(), 0);
    }
}

#[test]
fn every_key_of_the_properties_comes_out_once() {
    let features = normalize(
        r#"{"features":[{"type":"Feature","geometry":{"type":"Point","coordinates":[0,0]},"properties":{"b":"2","a":"1","c":"3","a":"4"}}]}"#,
    )
    .unwrap();
    let keys: Vec<String> = features[0].properties.iter().map(|p| p.key.clone()).collect();
    assert_eq!(keys, vec!["a", "b", "c"]);
    assert_eq!(features[0].properties[0].value, "4");
}

#[test]
fn properties_come_out_in_ascending_order_of_their_keys() {
    let features = normalize(
        r#"{"features":[{"type":"Feature","geometry":{"type":"Point","coordinates":[0,0]},"properties":{"ab":"3","zzé":"5","a":"2","B":"1","b":"4","":"0"}}]}"#,
    )
    .unwrap();
    let pairs: Vec<(&str, &str)> = features[0]
        .properties
        .iter()
        .map(|p| (p.key.as_str(), p.value.as_str()))
        .collect();
    assert_eq!(
        pairs,
        vec![("", "0"), ("B", "1"), ("a", "2"), ("ab", "3"), ("b", "4"), ("zz\u{e9}", "5")]
    );
}

#[test]
fn element_without_feature_type_is_refused() {
    let element = json(r#"{"geometry":{"type":"Point","coordinates":[0,0]}}"#);
    assert_eq!(normalize_feature(&element).err(), Some(FormatError::MissingType));
    let element = json(r#"{"type":7,"geometry":{"type":"Point","coordinates":[0,0]}}"#);
    assert_eq!(normalize_feature(&element).err(), Some(FormatError::MissingType));
}

#[test]
fn element_without_geometry_type_is_refused() {
    let element = json(r#"{"type":"Feature","geometry":{"coordinates":[0,0]}}"#);
    assert_eq!(normalize_feature(&element).err(), Some(FormatError::MissingType));
    let element = json(r#"{"type":"Feature"}"#);
    assert_eq!(normalize_feature(&element).err(), Some(FormatError::MissingType));
    let element = json(r#""Feature""#);
    assert_eq!(normalize_feature(&element).err(), Some(FormatError::MissingType));
}

#[test]
fn document_reports_the_first_failure() {
    let document = json(
        r#"{"features":[{"type":"Feature","geometry":{"type":"Point","coordinates":[0,0]}},{"type":"Feature"}]}"#,
    );
    assert_eq!(normalize_document(&document).err(), Some(FormatError::MissingType));
    let document = json(r#"{"other":[]}"#);
    assert_eq!(normalize_document(&document).err(), Some(FormatError::MissingFeatures));
}

#[test]
fn document_keeps_the_order_of_its_elements() {
    let document = json(
        r#"{"features":[
            {"type":"A","geometry":{"type":"Point","coordinates":[0]}},
            {"type":"B","geometry":{"type":"Point","coordinates":[1]}},
            {"type":"C","geometry":{"type":"Point","coordinates":[2]}}
        ]}"#,
    );
    let features = normalize_document(&document).unwrap();
    let types: Vec<&str> = features.iter().map(|f| f.feature_type.as_str()).collect();
    assert_eq!(types, vec!["A", "B", "C"]);
}

#[test]
fn text_that_is_no_json_is_a_protocol_error() {
    assert_eq!(normalize("not json").err(), Some(SyncError::Protocol));
    assert_eq!(normalize("{\"features\":[]} trailing").err(), Some(SyncError::Protocol));
}

#[test]
fn failures_of_the_format_come_wrapped() {
    assert_eq!(
        normalize("{}").err(),
        Some(SyncError::Format(FormatError::MissingFeatures))
    );
    assert_eq!(
        normalize(r#"{"features":[{}]}"#).err(),
        Some(SyncError::Format(FormatError::MissingType))
    );
}
