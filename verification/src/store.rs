//! The store: features, their geometries and their properties, as three
//! relations linked by the feature's identity.
//!
//! The store only grows. A feature is written together with its one geometry
//! and its properties, under an identity that the store assigns, and only if
//! no stored feature has the same type, geometry type and coordinates.

use crate::error::SyncError;
use crate::feature::{feature_models, DedupKey, FeatureModel, NormalizedFeature, PropertyModel};
use vstd::prelude::*;

verus! {

/// A row of the relation of features.
pub struct FeatureRow {
    pub id: i64,
    pub feature_type: String,
}

/// A row of the relation of geometries.
pub struct GeometryRow {
    pub feature_id: i64,
    pub geometry_type: String,
    /// The coordinates, as compact JSON text.
    pub coordinates: String,
}

/// A row of the relation of properties.
pub struct PropertyRow {
    pub feature_id: i64,
    pub property_key: String,
    pub property_value: String,
}

/// What a [`FeatureRow`] holds.
pub struct FeatureRowModel {
    pub id: int,
    pub feature_type: Seq<char>,
}

/// What a [`GeometryRow`] holds.
pub struct GeometryRowModel {
    pub feature_id: int,
    pub geometry_type: Seq<char>,
    pub coordinates: Seq<char>,
}

/// What a [`PropertyRow`] holds.
pub struct PropertyRowModel {
    pub feature_id: int,
    pub key: Seq<char>,
    pub value: Seq<char>,
}

impl View for FeatureRow {
    type V = FeatureRowModel;

    open spec fn view(&self) -> FeatureRowModel {
        FeatureRowModel { id: self.id as int, feature_type: self.feature_type@ }
    }
}

impl View for GeometryRow {
    type V = GeometryRowModel;

    open spec fn view(&self) -> GeometryRowModel {
        GeometryRowModel {
            feature_id: self.feature_id as int,
            geometry_type: self.geometry_type@,
            coordinates: self.coordinates@,
        }
    }
}

impl View for PropertyRow {
    type V = PropertyRowModel;

    open spec fn view(&self) -> PropertyRowModel {
        PropertyRowModel {
            feature_id: self.feature_id as int,
            key: self.property_key@,
            value: self.property_value@,
        }
    }
}

/// The models of the rows, in order.
pub open spec fn feature_rows(rows: Seq<FeatureRow>) -> Seq<FeatureRowModel> {
    Seq::new(rows.len(), |i: int| rows[i]@)
}

/// The models of the rows, in order.
pub open spec fn geometry_rows(rows: Seq<GeometryRow>) -> Seq<GeometryRowModel> {
    Seq::new(rows.len(), |i: int| rows[i]@)
}

/// The models of the rows, in order.
pub open spec fn property_rows(rows: Seq<PropertyRow>) -> Seq<PropertyRowModel> {
    Seq::new(rows.len(), |i: int| rows[i]@)
}

/// The rows that the properties of one feature become.
pub open spec fn rows_of_properties(id: int, properties: Seq<PropertyModel>) -> Seq<
    PropertyRowModel,
> {
    Seq::new(
        properties.len(),
        |k: int| PropertyRowModel { feature_id: id, key: properties[k].key, value: properties[k].value },
    )
}

/// What became of a feature that was handed to the store.
#[derive(Clone, Copy, Debug, PartialEq, Eq, Structural)]
pub enum WriteOutcome {
    Inserted,
    Skipped,
}

/// How many features of a batch were written, and how many were there
/// already.
#[derive(Clone, Copy, Debug, PartialEq, Eq, Structural)]
pub struct WriteSummary {
    pub inserted: usize,
    pub skipped: usize,
}

/// The three relations.
pub struct StoreModel {
    pub features: Seq<FeatureRowModel>,
    pub geometries: Seq<GeometryRowModel>,
    pub properties: Seq<PropertyRowModel>,
}

impl StoreModel {
    /// The store without rows.
    pub open spec fn empty() -> StoreModel {
        StoreModel { features: Seq::empty(), geometries: Seq::empty(), properties: Seq::empty() }
    }

    /// A feature with this identity is stored.
    pub open spec fn has_feature(self, id: int) -> bool {
        exists|i: int| 0 <= i < self.features.len() && (#[trigger] self.features[i]).id == id
    }

    /// A geometry of the feature with this identity is stored.
    pub open spec fn has_geometry(self, id: int) -> bool {
        exists|j: int|
            0 <= j < self.geometries.len() && (#[trigger] self.geometries[j]).feature_id == id
    }

    /// The invariant of the store. Identities grow along the relation of
    /// features, so none occurs twice and the last is the greatest. Every
    /// geometry and every property belongs to a stored feature, and every
    /// feature has exactly one geometry.
    pub open spec fn valid(self) -> bool {
        &&& forall|i: int, j: int|
            0 <= i < j < self.features.len() ==> (#[trigger] self.features[i]).id < (
            #[trigger] self.features[j]).id
        &&& forall|j: int|
            0 <= j < self.geometries.len() ==> self.has_feature(
                (#[trigger] self.geometries[j]).feature_id,
            )
        &&& forall|i: int|
            0 <= i < self.features.len() ==> self.has_geometry((#[trigger] self.features[i]).id)
        &&& forall|j: int, k: int|
            0 <= j < k < self.geometries.len() ==> (#[trigger] self.geometries[j]).feature_id != (
            #[trigger] self.geometries[k]).feature_id
        &&& forall|k: int|
            0 <= k < self.properties.len() ==> self.has_feature(
                (#[trigger] self.properties[k]).feature_id,
            )
    }

    /// The feature at `i` and the geometry at `j` belong together and have
    /// the key `key`.
    pub open spec fn pair_matches(self, i: int, j: int, key: DedupKey) -> bool {
        &&& 0 <= i < self.features.len()
        &&& 0 <= j < self.geometries.len()
        &&& self.features[i].id == self.geometries[j].feature_id
        &&& self.features[i].feature_type == key.feature_type
        &&& self.geometries[j].geometry_type == key.geometry_type
        &&& self.geometries[j].coordinates == key.coordinates_text
    }

    /// A feature with the key `key` is stored.
    pub open spec fn has_match(self, key: DedupKey) -> bool {
        exists|i: int, j: int| self.pair_matches(i, j, key)
    }

    /// The identity that the next feature gets: one more than the greatest in
    /// use, and 1 in a store without features.
    pub open spec fn next_id(self) -> int {
        if self.features.len() == 0 {
            1
        } else {
            self.features.last().id + 1
        }
    }

    /// No identity is left for another feature.
    pub open spec fn is_full(self) -> bool {
        self.next_id() > i64::MAX
    }

    /// The store with `feature` added under the next identity: one row for
    /// the feature, one for its geometry, one for each of its properties.
    pub open spec fn insert(self, feature: FeatureModel) -> StoreModel {
        StoreModel {
            features: self.features.push(
                FeatureRowModel { id: self.next_id(), feature_type: feature.feature_type },
            ),
            geometries: self.geometries.push(
                GeometryRowModel {
                    feature_id: self.next_id(),
                    geometry_type: feature.geometry_type,
                    coordinates: feature.coordinates_text,
                },
            ),
            properties: self.properties + rows_of_properties(self.next_id(), feature.properties),
        }
    }

    /// The store refuses `feature`: it is new, and no identity is left for
    /// it.
    pub open spec fn rejects(self, feature: FeatureModel) -> bool {
        !self.has_match(feature.key()) && self.is_full()
    }

    /// The store after `feature` was handed to it: unchanged where a feature
    /// with the same key is stored, or where the store refuses it.
    pub open spec fn write(self, feature: FeatureModel) -> StoreModel {
        if self.has_match(feature.key()) || self.is_full() {
            self
        } else {
            self.insert(feature)
        }
    }

    /// What handing `feature` to the store results in.
    pub open spec fn write_outcome(self, feature: FeatureModel) -> Result<WriteOutcome, SyncError> {
        if self.has_match(feature.key()) {
            Ok(WriteOutcome::Skipped)
        } else if self.is_full() {
            Err(SyncError::Storage)
        } else {
            Ok(WriteOutcome::Inserted)
        }
    }

    /// The store after the features were handed to it one by one, in order.
    pub open spec fn write_all(self, features: Seq<FeatureModel>) -> StoreModel
        decreases features.len(),
    {
        if features.len() == 0 {
            self
        } else {
            self.write_all(features.drop_last()).write(features.last())
        }
    }

    /// One of the features is refused when its turn comes.
    pub open spec fn rejects_any(self, features: Seq<FeatureModel>) -> bool {
        exists|i: int|
            0 <= i < features.len() && (#[trigger] self.write_all(features.take(i))).rejects(
                features[i],
            )
    }
}

/// Adding a feature keeps the store valid.
pub proof fn lemma_insert_valid(store: StoreModel, feature: FeatureModel)
    requires
        store.valid(),
    ensures
        store.insert(feature).valid(),
{
    let after = store.insert(feature);
    let id = store.next_id();
    let n = store.features.len() as int;
    let m = store.geometries.len() as int;
    assert forall|i: int| 0 <= i < n implies (#[trigger] store.features[i]).id < id by {
        if i < n - 1 {
            assert(store.features[i].id < store.features[n - 1].id);
        }
    }
    assert forall|other: int| store.has_feature(other) implies after.has_feature(other) by {
        let i = choose|i: int| 0 <= i < n && (#[trigger] store.features[i]).id == other;
        assert(after.features[i].id == other);
    }
    assert forall|other: int| store.has_geometry(other) implies after.has_geometry(other) by {
        let j = choose|j: int| 0 <= j < m && (#[trigger] store.geometries[j]).feature_id == other;
        assert(after.geometries[j].feature_id == other);
    }
    assert(after.features[n].id == id);
    assert(after.geometries[m].feature_id == id);
    assert(after.has_feature(id));
    assert(after.has_geometry(id));
    assert forall|j: int| 0 <= j < after.geometries.len() implies after.has_feature(
        (#[trigger] after.geometries[j]).feature_id,
    ) by {
        if j < m {
            assert(after.geometries[j] == store.geometries[j]);
            assert(store.has_feature(store.geometries[j].feature_id));
        }
    }
    assert forall|i: int| 0 <= i < after.features.len() implies after.has_geometry(
        (#[trigger] after.features[i]).id,
    ) by {
        if i < n {
            assert(after.features[i] == store.features[i]);
            assert(store.has_geometry(store.features[i].id));
        }
    }
    assert forall|j: int, k: int| 0 <= j < k < after.geometries.len() implies (
    #[trigger] after.geometries[j]).feature_id != (#[trigger] after.geometries[k]).feature_id by {
        assert(after.geometries[j] == store.geometries[j]);
        if k < m {
            assert(after.geometries[k] == store.geometries[k]);
        } else {
            let other = store.geometries[j].feature_id;
            assert(store.has_feature(other));
            let i = choose|i: int| 0 <= i < n && (#[trigger] store.features[i]).id == other;
            assert(store.features[i].id < id);
        }
    }
    assert forall|k: int| 0 <= k < after.properties.len() implies after.has_feature(
        (#[trigger] after.properties[k]).feature_id,
    ) by {
        if k < store.properties.len() {
            assert(after.properties[k] == store.properties[k]);
            assert(store.has_feature(store.properties[k].feature_id));
        } else {
            assert(after.properties[k].feature_id == id);
        }
    }
    assert forall|i: int, j: int| 0 <= i < j < after.features.len() implies (
    #[trigger] after.features[i]).id < (#[trigger] after.features[j]).id by {
        assert(after.features[i] == store.features[i]);
        if j < n {
            assert(after.features[j] == store.features[j]);
        } else {
            assert(store.features[i].id < id);
        }
    }
}

/// Handing a feature to a valid store leaves a valid store.
pub proof fn lemma_write_valid(store: StoreModel, feature: FeatureModel)
    requires
        store.valid(),
    ensures
        store.write(feature).valid(),
{
    if !(store.has_match(feature.key()) || store.is_full()) {
        lemma_insert_valid(store, feature);
    }
}

/// The store, in memory.
pub struct Store {
    features: Vec<FeatureRow>,
    geometries: Vec<GeometryRow>,
    properties: Vec<PropertyRow>,
}

impl View for Store {
    type V = StoreModel;

    closed spec fn view(&self) -> StoreModel {
        StoreModel {
            features: feature_rows(self.features@),
            geometries: geometry_rows(self.geometries@),
            properties: property_rows(self.properties@),
        }
    }
}

impl Store {
    /// The store keeps its invariant.
    pub open spec fn wf(&self) -> bool {
        self@.valid()
    }

    /// The store without rows.
    pub fn new() -> (r: Store)
        ensures
            r@ == StoreModel::empty(),
            r.wf(),
    {
        let r = Store { features: Vec::new(), geometries: Vec::new(), properties: Vec::new() };
        assert(r@.features =~= Seq::empty());
        assert(r@.geometries =~= Seq::empty());
        assert(r@.properties =~= Seq::empty());
        r
    }

    /// The rows of the relation of features, in the order of their identities.
    pub fn features(&self) -> (r: &Vec<FeatureRow>)
        ensures
            feature_rows(r@) == self@.features,
    {
        &self.features
    }

    /// The rows of the relation of geometries.
    pub fn geometries(&self) -> (r: &Vec<GeometryRow>)
        ensures
            geometry_rows(r@) == self@.geometries,
    {
        &self.geometries
    }

    /// The rows of the relation of properties.
    pub fn properties(&self) -> (r: &Vec<PropertyRow>)
        ensures
            property_rows(r@) == self@.properties,
    {
        &self.properties
    }

    /// The place of the feature with the identity `id`, if it is stored.
    fn find_feature(&self, id: i64) -> (r: Option<usize>)
        ensures
            match r {
                Some(i) => i < self@.features.len() && self@.features[i as int].id == id,
                None => !self@.has_feature(id as int),
            },
    {
        let mut i: usize = 0;
        while i < self.features.len()
            invariant
                0 <= i <= self.features.len(),
                forall|k: int| 0 <= k < i ==> (#[trigger] self@.features[k]).id != id,
            decreases self.features.len() - i,
        {
            if self.features[i].id == id {
                return Some(i);
            }
            i += 1;
        }
        None
    }

    /// Whether a feature with the key of `feature` is stored.
    pub fn contains(&self, feature: &NormalizedFeature) -> (r: bool)
        requires
            self.wf(),
        ensures
            r == self@.has_match(feature@.key()),
    {
        let ghost key = feature@.key();
        let mut j: usize = 0;
        while j < self.geometries.len()
            invariant
                0 <= j <= self.geometries.len(),
                self.wf(),
                key == feature@.key(),
                forall|i: int, k: int| 0 <= k < j ==> !self@.pair_matches(i, k, key),
            decreases self.geometries.len() - j,
        {
            let geometry = &self.geometries[j];
            if geometry.geometry_type == feature.geometry_type && geometry.coordinates
                == feature.coordinates_text {
                match self.find_feature(geometry.feature_id) {
                    Some(i) => {
                        if self.features[i].feature_type == feature.feature_type {
                            assert(self@.pair_matches(i as int, j as int, key));
                            return true;
                        }
                        assert forall|other: int| !self@.pair_matches(other, j as int, key) by {
                            if self@.pair_matches(other, j as int, key) {
                                if other < i {
                                    assert(self@.features[other].id < self@.features[i as int].id);
                                } else if other > i {
                                    assert(self@.features[i as int].id < self@.features[other].id);
                                }
                            }
                        }
                    },
                    None => {
                        assert forall|other: int| !self@.pair_matches(other, j as int, key) by {
                            if self@.pair_matches(other, j as int, key) {
                                assert(self@.features[other].id == geometry.feature_id);
                            }
                        }
                    },
                }
            }
            j += 1;
        }
        false
    }
}

/// Once the store is full, the features that follow change nothing.
pub proof fn lemma_full_stays(store: StoreModel, features: Seq<FeatureModel>, n: int)
    requires
        0 <= n <= features.len(),
        store.write_all(features.take(n)).is_full(),
    ensures
        store.write_all(features) == store.write_all(features.take(n)),
    decreases features.len() - n,
{
    if n == features.len() {
        assert(features.take(n) =~= features);
    } else {
        assert(features.take(n + 1).drop_last() =~= features.take(n));
        lemma_full_stays(store, features, n + 1);
    }
}

/// Handing features to a valid store leaves a valid store.
pub proof fn lemma_write_all_valid(store: StoreModel, features: Seq<FeatureModel>)
    requires
        store.valid(),
    ensures
        store.write_all(features).valid(),
    decreases features.len(),
{
    if features.len() > 0 {
        lemma_write_all_valid(store, features.drop_last());
        lemma_write_valid(store.write_all(features.drop_last()), features.last());
    }
}

impl Store {
    /// Writes `feature` unless a feature with its key is stored: one row for
    /// the feature under a new identity, one for its geometry, one for each
    /// of its properties. Where no identity is left the store refuses the
    /// feature and stays as it was.
    pub fn write_if_new(&mut self, feature: &NormalizedFeature) -> (r: Result<
        WriteOutcome,
        SyncError,
    >)
        requires
            old(self).wf(),
        ensures
            final(self).wf(),
            final(self)@ == old(self)@.write(feature@),
            r == old(self)@.write_outcome(feature@),
    {
        if self.contains(feature) {
            return Ok(WriteOutcome::Skipped);
        }
        let count: usize = self.features.len();
        let id: i64 = if count == 0 {
            1
        } else {
            let last: i64 = self.features[count - 1].id;
            if last == i64::MAX {
                return Err(SyncError::Storage);
            }
            last + 1
        };
        let ghost before = self@;
        assert(id == before.next_id());
        self.features.push(FeatureRow { id, feature_type: feature.feature_type.clone() });
        self.geometries.push(
            GeometryRow {
                feature_id: id,
                geometry_type: feature.geometry_type.clone(),
                coordinates: feature.coordinates_text.clone(),
            },
        );
        assert(feature_rows(self.features@) =~= before.insert(feature@).features);
        assert(geometry_rows(self.geometries@) =~= before.insert(feature@).geometries);
        let mut k: usize = 0;
        assert(property_rows(self.properties@) =~= before.properties + rows_of_properties(
            id as int,
            feature@.properties.take(0),
        ));
        while k < feature.properties.len()
            invariant
                0 <= k <= feature.properties.len(),
                feature_rows(self.features@) == before.insert(feature@).features,
                geometry_rows(self.geometries@) == before.insert(feature@).geometries,
                property_rows(self.properties@) == before.properties + rows_of_properties(
                    id as int,
                    feature@.properties.take(k as int),
                ),
            decreases feature.properties.len() - k,
        {
            let property = &feature.properties[k];
            let ghost prior = self.properties@;
            self.properties.push(
                PropertyRow {
                    feature_id: id,
                    property_key: property.key.clone(),
                    property_value: property.value.clone(),
                },
            );
            assert(self.properties@.len() == prior.len() + 1);
            assert(property_rows(prior).len() == before.properties.len() + k);
            assert(feature@.properties.take(k + 1).len() == k + 1);
            assert forall|t: int| 0 <= t < property_rows(self.properties@).len() implies (
            #[trigger] property_rows(self.properties@)[t]) == (before.properties
                + rows_of_properties(id as int, feature@.properties.take(k + 1)))[t] by {
                if t < prior.len() {
                    assert(property_rows(prior)[t] == (before.properties + rows_of_properties(
                        id as int,
                        feature@.properties.take(k as int),
                    ))[t]);
                } else {
                    assert(feature@.properties[k as int] == property@);
                }
            }
            assert(property_rows(self.properties@) =~= before.properties + rows_of_properties(
                id as int,
                feature@.properties.take(k + 1),
            ));
            k += 1;
        }
        assert(feature@.properties.take(k as int) =~= feature@.properties);
        proof {
            lemma_insert_valid(before, feature@);
        }
        Ok(WriteOutcome::Inserted)
    }

    /// Hands the features to the store one by one, in order, and stops at the
    /// first that the store refuses.
    pub fn write_all(&mut self, features: &Vec<NormalizedFeature>) -> (r: Result<
        WriteSummary,
        SyncError,
    >)
        requires
            old(self).wf(),
        ensures
            final(self).wf(),
            final(self)@ == old(self)@.write_all(feature_models(features@)),
            match r {
                Ok(summary) => {
                    &&& !old(self)@.rejects_any(feature_models(features@))
                    &&& summary.inserted + summary.skipped == features@.len()
                    &&& summary.inserted == final(self)@.features.len() - old(
                        self,
                    )@.features.len()
                },
                Err(e) => e == SyncError::Storage && old(self)@.rejects_any(
                    feature_models(features@),
                ),
            },
    {
        let ghost before = self@;
        let ghost models = feature_models(features@);
        let mut inserted: usize = 0;
        let mut skipped: usize = 0;
        let mut i: usize = 0;
        assert(models.take(0) =~= Seq::empty());
        while i < features.len()
            invariant
                0 <= i <= features.len(),
                before == old(self)@,
                models == feature_models(features@),
                self.wf(),
                self@ == before.write_all(models.take(i as int)),
                forall|k: int|
                    0 <= k < i ==> !(#[trigger] before.write_all(models.take(k))).rejects(
                        models[k],
                    ),
                inserted + skipped == i,
                inserted == self@.features.len() - before.features.len(),
            decreases features.len() - i,
        {
            let ghost current = self@;
            assert(models.take(i + 1).drop_last() =~= models.take(i as int));
            assert(models.take(i + 1).last() == features@[i as int]@);
            match self.write_if_new(&features[i]) {
                Ok(WriteOutcome::Inserted) => {
                    inserted += 1;
                },
                Ok(WriteOutcome::Skipped) => {
                    skipped += 1;
                },
                Err(e) => {
                    proof {
                        assert(models[i as int] == features@[i as int]@);
                        assert(current.write_outcome(models[i as int]) is Err);
                        assert(current.rejects(models[i as int]));
                        assert(self@ == current);
                        assert(before.write_all(models.take(i as int)).rejects(models[i as int]));
                        lemma_full_stays(before, models, i as int);
                    }
                    return Err(e);
                },
            }
            i += 1;
        }
        assert(models.take(i as int) =~= models);
        Ok(WriteSummary { inserted, skipped })
    }
}

impl Store {
    /// The store that the rows make up, as they were read from where the
    /// store is kept. Rows that break the store's invariant are refused.
    pub fn from_rows(
        features: Vec<FeatureRow>,
        geometries: Vec<GeometryRow>,
        properties: Vec<PropertyRow>,
    ) -> (r: Result<Store, SyncError>)
        ensures
            match r {
                Ok(store) => {
                    &&& store.wf()
                    &&& store@ == crate::validate::rows_model(features@, geometries@, properties@)
                },
                Err(e) => {
                    &&& e == SyncError::Storage
                    &&& !crate::validate::rows_model(features@, geometries@, properties@).valid()
                },
            },
    {
        if crate::validate::rows_are_valid(&features, &geometries, &properties) {
            Ok(Store { features, geometries, properties })
        } else {
            Err(SyncError::Storage)
        }
    }
}

} // verus!
