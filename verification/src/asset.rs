//! The record types of the store: `Asset`, the creation/update payload, and
//! the service's error type, together with their mathematical views.

use vstd::prelude::*;

verus! {

/// Errors reported to callers of the four service operations.
#[derive(Clone, Debug)]
pub enum ServiceError {
    /// The requested id is not present in the store; no state was changed.
    NotFound { id: u64 },
    /// Any other recoverable condition; none of the four operations raises it.
    Other { msg: String },
}

/// The persisted record. `id`, `creator_id` and `created_at` are immutable
/// after creation; the remaining fields may be overwritten by an update.
#[derive(Clone, Debug)]
pub struct Asset {
    pub id: u64,
    pub title: String,
    pub description: String,
    pub asset_url: String,
    pub price: u64,
    pub creator_id: u64,
    pub created_at: u64,
    pub updated_at: Option<u64>,
}

/// What a caller supplies to create or update an asset: the mutable fields.
#[derive(Clone, Debug)]
pub struct AssetPayload {
    pub title: String,
    pub description: String,
    pub asset_url: String,
    pub price: u64,
}

/// The mathematical value of an `Asset`: strings as character sequences.
pub struct AssetView {
    pub id: u64,
    pub title: Seq<char>,
    pub description: Seq<char>,
    pub asset_url: Seq<char>,
    pub price: u64,
    pub creator_id: u64,
    pub created_at: u64,
    pub updated_at: Option<u64>,
}

/// The mathematical value of an `AssetPayload`.
pub struct PayloadView {
    pub title: Seq<char>,
    pub description: Seq<char>,
    pub asset_url: Seq<char>,
    pub price: u64,
}

impl View for Asset {
    type V = AssetView;

    open spec fn view(&self) -> AssetView {
        AssetView {
            id: self.id,
            title: self.title@,
            description: self.description@,
            asset_url: self.asset_url@,
            price: self.price,
            creator_id: self.creator_id,
            created_at: self.created_at,
            updated_at: self.updated_at,
        }
    }
}

impl View for AssetPayload {
    type V = PayloadView;

    open spec fn view(&self) -> PayloadView {
        PayloadView {
            title: self.title@,
            description: self.description@,
            asset_url: self.asset_url@,
            price: self.price,
        }
    }
}

impl PartialEq for Asset {
    fn eq(&self, other: &Asset) -> (r: bool) {
        self.id == other.id && self.price == other.price
            && self.creator_id == other.creator_id
            && self.created_at == other.created_at
            && (match (self.updated_at, other.updated_at) {
                (Option::None, Option::None) => true,
                (Option::Some(a), Option::Some(b)) => a == b,
                _ => false,
            })
            && self.title == other.title
            && self.description == other.description
            && self.asset_url == other.asset_url
    }
}

impl vstd::std_specs::cmp::PartialEqSpecImpl for Asset {
    open spec fn obeys_eq_spec() -> bool {
        true
    }

    open spec fn eq_spec(&self, other: &Asset) -> bool {
        &&& self.id == other.id
        &&& self.price == other.price
        &&& self.creator_id == other.creator_id
        &&& self.created_at == other.created_at
        &&& self.updated_at == other.updated_at
        &&& self.title@ == other.title@
        &&& self.description@ == other.description@
        &&& self.asset_url@ == other.asset_url@
    }
}

} // verus!
