//! The normaliser: from a remote document to flat features.
//!
//! A document is a JSON object whose member `features` is an array. Each
//! element must name its `type` and the `type` of its `geometry`; its
//! coordinates are kept as compact JSON text, its properties as text by key.
//! One element that cannot be read fails the whole document.

use crate::error::{FormatError, SyncError};
use crate::feature::{feature_models, property_models};
use crate::feature::{FeatureModel, NormalizedFeature, Property, PropertyModel};
use crate::json::{as_array, as_object, as_str, map_entries, member, parse_value, to_text};
use crate::json::{json_contents, json_map_contents, json_parse, json_text};
use crate::order::{ascending, in_order, lemma_before_is_strict, lemma_in_order, lists};
use crate::json::JsonTree;
use serde_json::Value;
use vstd::prelude::*;

verus! {

/// The text under which a property value is kept: a string as it is, any
/// other value as its JSON text.
pub open spec fn property_text(value: JsonTree) -> Option<Seq<char>> {
    match value {
        JsonTree::Str(text) => Some(text),
        _ => json_text(value),
    }
}

/// The properties that the member `properties` of an element gives: one for
/// each member where it is an object, none where it is anything else. `None`
/// where a member's value has no text.
pub open spec fn properties_of(value: JsonTree) -> Option<Seq<PropertyModel>> {
    match value {
        JsonTree::Object(members) => {
            let keys = in_order(members.dom());
            if forall|i: int|
                #![trigger keys[i]]
                0 <= i < keys.len() ==> property_text(members[keys[i]]) is Some {
                Some(
                    Seq::new(
                        keys.len(),
                        |i: int|
                            PropertyModel {
                                key: keys[i],
                                value: property_text(members[keys[i]]).unwrap(),
                            },
                    ),
                )
            } else {
                None
            }
        },
        _ => Some(Seq::empty()),
    }
}

/// The properties are those of the object with the members `members`: each
/// key of the object once, with the text of the value under it.
pub open spec fn properties_match(
    properties: Seq<PropertyModel>,
    members: Map<Seq<char>, JsonTree>,
) -> bool {
    &&& forall|i: int|
        0 <= i < properties.len() ==> members.contains_key((#[trigger] properties[i]).key)
            && property_text(members[properties[i].key]) == Some(properties[i].value)
    &&& forall|i: int, j: int|
        0 <= i < j < properties.len() ==> (#[trigger] properties[i]).key != (
        #[trigger] properties[j]).key
    &&& forall|key: Seq<char>| #[trigger]
        members.contains_key(key) ==> exists|i: int|
            0 <= i < properties.len() && (#[trigger] properties[i]).key == key
}

/// The feature has the properties of the element it was made from.
pub open spec fn feature_fits(element: JsonTree, feature: FeatureModel) -> bool {
    match element.member("properties"@) {
        JsonTree::Object(members) => properties_match(feature.properties, members),
        _ => feature.properties.len() == 0,
    }
}

/// The feature that one element of the array gives, or why it gives none.
pub open spec fn feature_of(element: JsonTree) -> Result<FeatureModel, FormatError> {
    let geometry = element.member("geometry"@);
    match (element.member("type"@), geometry.member("type"@)) {
        (JsonTree::Str(feature_type), JsonTree::Str(geometry_type)) => match (
            json_text(geometry.member("coordinates"@)),
            properties_of(element.member("properties"@)),
        ) {
            (Some(coordinates_text), Some(properties)) => Ok(
                FeatureModel { feature_type, geometry_type, coordinates_text, properties },
            ),
            _ => Err(FormatError::Unencodable),
        },
        _ => Err(FormatError::MissingType),
    }
}

/// The features that the elements give, in order, or the failure of the first
/// element that gives none.
pub open spec fn features_of(elements: Seq<JsonTree>) -> Result<Seq<FeatureModel>, FormatError>
    decreases elements.len(),
{
    if elements.len() == 0 {
        Ok(Seq::empty())
    } else {
        match features_of(elements.drop_last()) {
            Err(e) => Err(e),
            Ok(features) => match feature_of(elements.last()) {
                Err(e) => Err(e),
                Ok(feature) => Ok(features.push(feature)),
            },
        }
    }
}

/// The elements of the array `features` of a document; none where it has no
/// such array.
pub open spec fn document_elements(document: JsonTree) -> Seq<JsonTree> {
    match document.member("features"@) {
        JsonTree::Array(elements) => elements,
        _ => Seq::empty(),
    }
}

/// The features that a document gives.
pub open spec fn normalization_of(document: JsonTree) -> Result<Seq<FeatureModel>, FormatError> {
    match document.member("features"@) {
        JsonTree::Array(elements) => features_of(elements),
        _ => Err(FormatError::MissingFeatures),
    }
}

/// The features that a payload gives: those of the document that it parses
/// to.
pub open spec fn payload_features(payload: Seq<char>) -> Result<Seq<FeatureModel>, SyncError> {
    match json_parse(payload) {
        None => Err(SyncError::Protocol),
        Some(document) => match normalization_of(document) {
            Ok(features) => Ok(features),
            Err(e) => Err(SyncError::Format(e)),
        },
    }
}

/// What the outcome of a normalisation says, the features taken by their
/// models.
pub open spec fn outcome_model<E>(outcome: Result<Vec<NormalizedFeature>, E>) -> Result<
    Seq<FeatureModel>,
    E,
> {
    match outcome {
        Ok(features) => Ok(feature_models(features@)),
        Err(e) => Err(e),
    }
}

/// Once an element has failed, the elements after it change nothing.
proof fn lemma_failure_stays(elements: Seq<JsonTree>, n: int)
    requires
        0 <= n <= elements.len(),
        features_of(elements.take(n)) is Err,
    ensures
        features_of(elements) == features_of(elements.take(n)),
    decreases elements.len() - n,
{
    if n == elements.len() {
        assert(elements.take(n) =~= elements);
    } else {
        assert(elements.take(n + 1).drop_last() =~= elements.take(n));
        lemma_failure_stays(elements, n + 1);
    }
}

/// The properties of an element, read from its member `properties`.
fn normalize_properties(value: &Value) -> (r: Option<Vec<Property>>)
    ensures
        match r {
            Some(properties) => properties_of(json_contents(*value)) == Some(
                property_models(properties@),
            ),
            None => properties_of(json_contents(*value)) is None,
        },
        match (r, json_contents(*value)) {
            (Some(properties), JsonTree::Object(members)) => properties_match(
                property_models(properties@),
                members,
            ),
            _ => true,
        },
{
    match as_object(value) {
        None => {
            let properties: Vec<Property> = Vec::new();
            assert(property_models(properties@) =~= Seq::empty());
            Some(properties)
        },
        Some(map) => {
            let entries = map_entries(map);
            let ghost members = json_map_contents(*map);
            let ghost keys = Seq::new(entries@.len(), |k: int| entries@[k].0@);
            proof {
                assert(ascending(keys));
                assert forall|text: Seq<char>| members.dom().contains(text) <==> (
                #[trigger] keys.contains(text)) by {
                    if members.dom().contains(text) {
                        let k = choose|k: int|
                            0 <= k < entries@.len() && (#[trigger] entries@[k]).0@ == text;
                        assert(keys[k] == text);
                    }
                    if keys.contains(text) {
                        let k = choose|k: int| 0 <= k < keys.len() && keys[k] == text;
                        assert(entries@[k].0@ == text);
                    }
                }
                assert(lists(keys, members.dom()));
                lemma_in_order(keys, members.dom());
                assert forall|a: int, b: int| 0 <= a < b < entries@.len() implies (
                #[trigger] entries@[a]).0@ != (#[trigger] entries@[b]).0@ by {
                    lemma_before_is_strict(entries@[a].0@);
                }
            }
            let mut properties: Vec<Property> = Vec::new();
            let mut i: usize = 0;
            while i < entries.len()
                invariant
                    0 <= i <= entries.len(),
                    json_contents(*value) == JsonTree::Object(members),
                    keys == in_order(members.dom()),
                    entries@.len() == keys.len(),
                    forall|k: int|
                        0 <= k < entries@.len() ==> (#[trigger] entries@[k]).0@ == keys[k]
                            && members.contains_key(keys[k]) && json_contents(entries@[k].1)
                            == members[keys[k]],
                    forall|a: int, b: int|
                        0 <= a < b < entries@.len() ==> (#[trigger] entries@[a]).0@ != (
                        #[trigger] entries@[b]).0@,
                    forall|key: Seq<char>| #[trigger]
                        members.contains_key(key) ==> exists|k: int|
                            0 <= k < entries@.len() && (#[trigger] entries@[k]).0@ == key,
                    properties@.len() == i,
                    forall|k: int|
                        0 <= k < i ==> (#[trigger] properties@[k])@.key == keys[k]
                            && property_text(members[keys[k]]) == Some(properties@[k]@.value),
                decreases entries.len() - i,
            {
                let entry = &entries[i];
                let text_value = match as_str(&entry.1) {
                    Some(text) => text.to_owned(),
                    None => match to_text(&entry.1) {
                        Ok(text) => text,
                        Err(_) => {
                            assert(property_text(members[keys[i as int]]) is None);
                            return None;
                        },
                    },
                };
                properties.push(Property { key: entry.0.clone(), value: text_value });
                i += 1;
            }
            assert forall|k: int| 0 <= k < keys.len() implies property_text(
                members[#[trigger] keys[k]],
            ) == Some(properties@[k]@.value) && properties@[k]@.key == keys[k] by {
                let property = properties@[k];
            }
            assert(property_models(properties@) =~= properties_of(
                json_contents(*value),
            ).unwrap());
            proof {
                let models = property_models(properties@);
                assert forall|k: int| 0 <= k < models.len() implies members.contains_key(
                    (#[trigger] models[k]).key,
                ) && property_text(members[models[k].key]) == Some(models[k].value) by {
                    let entry = entries@[k];
                    assert(models[k].key == keys[k]);
                }
                assert forall|a: int, b: int| 0 <= a < b < models.len() implies (
                #[trigger] models[a]).key != (#[trigger] models[b]).key by {
                    assert(entries@[a].0@ != entries@[b].0@);
                    assert(models[a].key == keys[a]);
                    assert(models[b].key == keys[b]);
                }
                assert forall|key: Seq<char>| #[trigger]
                    members.contains_key(key) implies exists|k: int|
                    0 <= k < models.len() && (#[trigger] models[k]).key == key by {
                    let k = choose|k: int|
                        0 <= k < entries@.len() && (#[trigger] entries@[k]).0@ == key;
                    assert(models[k].key == keys[k]);
                }
            }
            Some(properties)
        },
    }
}

/// Normalises one element of the array `features`.
pub fn normalize_feature(element: &Value) -> (r: Result<NormalizedFeature, FormatError>)
    ensures
        match r {
            Ok(feature) => feature_of(json_contents(*element)) == Ok::<FeatureModel, FormatError>(
                feature@,
            ),
            Err(e) => feature_of(json_contents(*element)) == Err::<FeatureModel, FormatError>(e),
        },
        r matches Ok(feature) ==> feature_fits(json_contents(*element), feature@),
{
    let feature_type = match as_str(member(element, "type")) {
        Some(text) => text.to_owned(),
        None => {
            return Err(FormatError::MissingType);
        },
    };
    let geometry = member(element, "geometry");
    let geometry_type = match as_str(member(geometry, "type")) {
        Some(text) => text.to_owned(),
        None => {
            return Err(FormatError::MissingType);
        },
    };
    let coordinates_text = match to_text(member(geometry, "coordinates")) {
        Ok(text) => text,
        Err(_) => {
            return Err(FormatError::Unencodable);
        },
    };
    let properties = match normalize_properties(member(element, "properties")) {
        Some(properties) => properties,
        None => {
            return Err(FormatError::Unencodable);
        },
    };
    Ok(NormalizedFeature { feature_type, geometry_type, coordinates_text, properties })
}

/// Normalises a parsed document: every element of its array `features`, in
/// order. The first element that cannot be read fails the document, and so
/// does a document without that array.
pub fn normalize_document(document: &Value) -> (r: Result<Vec<NormalizedFeature>, FormatError>)
    ensures
        outcome_model(r) == normalization_of(json_contents(*document)),
        !(json_contents(*document).member("features"@) is Array) ==> r == Err::<
            Vec<NormalizedFeature>,
            FormatError,
        >(FormatError::MissingFeatures),
        r matches Ok(features) ==> {
            &&& features@.len() == document_elements(json_contents(*document)).len()
            &&& forall|i: int|
                0 <= i < features@.len() ==> feature_fits(
                    document_elements(json_contents(*document))[i],
                    (#[trigger] features@[i])@,
                )
        },
{
    let items = match as_array(member(document, "features")) {
        Some(items) => items,
        None => {
            return Err(FormatError::MissingFeatures);
        },
    };
    let ghost elements = crate::json::contents_of(items@);
    let mut features: Vec<NormalizedFeature> = Vec::new();
    let mut i: usize = 0;
    assert(elements.take(0) =~= Seq::empty());
    assert(feature_models(features@) =~= Seq::empty());
    while i < items.len()
        invariant
            0 <= i <= items.len(),
            elements == crate::json::contents_of(items@),
            json_contents(*document).member("features"@) == JsonTree::Array(elements),
            features_of(elements.take(i as int)) == Ok::<Seq<FeatureModel>, FormatError>(
                feature_models(features@),
            ),
            features@.len() == i,
            forall|k: int|
                0 <= k < i ==> feature_fits(elements[k], (#[trigger] features@[k])@),
        decreases items.len() - i,
    {
        let ghost before = feature_models(features@);
        assert(elements.take(i + 1).drop_last() =~= elements.take(i as int));
        assert(elements.take(i + 1).last() == json_contents(items@[i as int]));
        match normalize_feature(&items[i]) {
            Ok(feature) => {
                features.push(feature);
                assert(feature_models(features@) =~= before.push(feature@));
            },
            Err(e) => {
                proof {
                    lemma_failure_stays(elements, i + 1);
                }
                return Err(e);
            },
        }
        i += 1;
    }
    assert(elements.take(i as int) =~= elements);
    Ok(features)
}

/// Normalises a payload: parses it as JSON, then normalises the document.
/// A payload that is no JSON is a protocol error; a document that is no
/// feature collection is a format error.
pub fn normalize(payload: &str) -> (r: Result<Vec<NormalizedFeature>, SyncError>)
    ensures
        outcome_model(r) == payload_features(payload@),
{
    match parse_value(payload) {
        Err(_) => Err(SyncError::Protocol),
        Ok(document) => match normalize_document(&document) {
            Ok(features) => Ok(features),
            Err(e) => Err(SyncError::Format(e)),
        },
    }
}

} // verus!
