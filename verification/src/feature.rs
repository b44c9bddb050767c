//! A feature as it leaves the normaliser: flat, and made of text alone.

use vstd::prelude::*;

verus! {

/// One entry of a feature's properties.
pub struct Property {
    pub key: String,
    pub value: String,
}

/// A feature of the remote collection, flattened.
pub struct NormalizedFeature {
    pub feature_type: String,
    pub geometry_type: String,
    /// The coordinates, as compact JSON text.
    pub coordinates_text: String,
    pub properties: Vec<Property>,
}

/// What a [`Property`] holds.
pub struct PropertyModel {
    pub key: Seq<char>,
    pub value: Seq<char>,
}

/// What two features must share to count as one: the identity by which the
/// store tells whether it holds a feature already.
pub struct DedupKey {
    pub feature_type: Seq<char>,
    pub geometry_type: Seq<char>,
    pub coordinates_text: Seq<char>,
}

/// What a [`NormalizedFeature`] holds.
pub struct FeatureModel {
    pub feature_type: Seq<char>,
    pub geometry_type: Seq<char>,
    pub coordinates_text: Seq<char>,
    pub properties: Seq<PropertyModel>,
}

impl FeatureModel {
    /// The key by which the store knows the feature.
    pub open spec fn key(self) -> DedupKey {
        DedupKey {
            feature_type: self.feature_type,
            geometry_type: self.geometry_type,
            coordinates_text: self.coordinates_text,
        }
    }
}

impl View for Property {
    type V = PropertyModel;

    open spec fn view(&self) -> PropertyModel {
        PropertyModel { key: self.key@, value: self.value@ }
    }
}

/// The models of a sequence of properties, in order.
pub open spec fn property_models(properties: Seq<Property>) -> Seq<PropertyModel> {
    Seq::new(properties.len(), |i: int| properties[i]@)
}

impl View for NormalizedFeature {
    type V = FeatureModel;

    open spec fn view(&self) -> FeatureModel {
        FeatureModel {
            feature_type: self.feature_type@,
            geometry_type: self.geometry_type@,
            coordinates_text: self.coordinates_text@,
            properties: property_models(self.properties@),
        }
    }
}

/// The models of a sequence of features, in order.
pub open spec fn feature_models(features: Seq<NormalizedFeature>) -> Seq<FeatureModel> {
    Seq::new(features.len(), |i: int| features[i]@)
}

} // verus!
