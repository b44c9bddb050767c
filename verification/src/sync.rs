//! One synchronisation cycle: normalise the payload, then hand its features
//! to the store. A payload that cannot be normalised leaves the store as it
//! was.

use crate::error::SyncError;
use crate::feature::{FeatureModel, NormalizedFeature};
use crate::json::json_contents;
use crate::normalize::{normalization_of, normalize, normalize_document};
use crate::normalize::{outcome_model, payload_features};
use crate::store::{Store, StoreModel, WriteSummary};
use serde_json::Value;
use vstd::prelude::*;

verus! {

/// The features that a parsed document gives, its failure taken as the
/// failure of a cycle.
pub open spec fn document_features(document: crate::json::JsonTree) -> Result<
    Seq<FeatureModel>,
    SyncError,
> {
    match normalization_of(document) {
        Ok(features) => Ok(features),
        Err(e) => Err(SyncError::Format(e)),
    }
}

/// The store after a cycle whose normalisation ended in `features`.
pub open spec fn store_after(
    store: StoreModel,
    features: Result<Seq<FeatureModel>, SyncError>,
) -> StoreModel {
    match features {
        Ok(features) => store.write_all(features),
        Err(_) => store,
    }
}

/// The failure of a cycle whose normalisation ended in `features`, if it
/// fails: that of the normalisation, or the refusal of the store.
pub open spec fn failure_of(
    store: StoreModel,
    features: Result<Seq<FeatureModel>, SyncError>,
) -> Option<SyncError> {
    match features {
        Err(e) => Some(e),
        Ok(features) => if store.rejects_any(features) {
            Some(SyncError::Storage)
        } else {
            None
        },
    }
}

/// The store after a cycle on `payload`.
pub open spec fn synced(store: StoreModel, payload: Seq<char>) -> StoreModel {
    store_after(store, payload_features(payload))
}

/// What a cycle reports, held against what it was given and what it did.
pub open spec fn report_fits(
    report: Result<WriteSummary, SyncError>,
    before: StoreModel,
    after: StoreModel,
    features: Result<Seq<FeatureModel>, SyncError>,
) -> bool {
    match report {
        Err(e) => failure_of(before, features) == Some(e),
        Ok(summary) => {
            &&& failure_of(before, features) is None
            &&& features matches Ok(given)
            &&& summary.inserted + summary.skipped == given.len()
            &&& summary.inserted == after.features.len() - before.features.len()
        },
    }
}

/// Hands the outcome of a normalisation to the store: its features where it
/// has any, nothing where it failed.
pub fn write_normalized(
    store: &mut Store,
    outcome: Result<Vec<NormalizedFeature>, SyncError>,
) -> (r: Result<WriteSummary, SyncError>)
    requires
        old(store).wf(),
    ensures
        final(store).wf(),
        final(store)@ == store_after(old(store)@, outcome_model(outcome)),
        report_fits(r, old(store)@, final(store)@, outcome_model(outcome)),
        outcome is Err ==> final(store)@ == old(store)@,
{
    match outcome {
        Err(e) => Err(e),
        Ok(features) => store.write_all(&features),
    }
}

/// A cycle on a parsed document.
pub fn sync_document(store: &mut Store, document: &Value) -> (r: Result<WriteSummary, SyncError>)
    requires
        old(store).wf(),
    ensures
        final(store).wf(),
        final(store)@ == store_after(old(store)@, document_features(json_contents(*document))),
        report_fits(
            r,
            old(store)@,
            final(store)@,
            document_features(json_contents(*document)),
        ),
        normalization_of(json_contents(*document)) is Err ==> final(store)@ == old(store)@,
{
    let outcome = match normalize_document(document) {
        Ok(features) => Ok(features),
        Err(e) => Err(SyncError::Format(e)),
    };
    write_normalized(store, outcome)
}

/// A cycle on a payload: parse it, normalise the document, write what is
/// new. The store changes only where every element of the payload could be
/// read.
pub fn perform_sync(store: &mut Store, payload: &str) -> (r: Result<WriteSummary, SyncError>)
    requires
        old(store).wf(),
    ensures
        final(store).wf(),
        final(store)@ == synced(old(store)@, payload@),
        report_fits(r, old(store)@, final(store)@, payload_features(payload@)),
        payload_features(payload@) is Err ==> final(store)@ == old(store)@,
{
    let outcome = normalize(payload);
    write_normalized(store, outcome)
}

} // verus!
