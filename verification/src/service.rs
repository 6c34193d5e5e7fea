//! The asset service: the durable id counter and the durable record map
//! composed into the four public operations, with id assignment and
//! field-update policy.

use vstd::prelude::*;
use crate::asset::{Asset, AssetPayload, AssetView, PayloadView, ServiceError};
use crate::codec::{decode_spec, fits, strings_fit, lemma_round_trip};
use crate::stable::{fresh_regions, cell_value, map_contents, IdCell, RecordMap};

verus! {

/// The record created by an add: fields from the payload, the assigned id,
/// the creation stamp, and no update stamp yet.
pub open spec fn created_view(p: PayloadView, id: u64, creator_id: u64, now: u64) -> AssetView {
    AssetView {
        id,
        title: p.title,
        description: p.description,
        asset_url: p.asset_url,
        price: p.price,
        creator_id,
        created_at: now,
        updated_at: Option::None,
    }
}

/// The record after an update: the mutable fields from the payload, the
/// immutable fields kept, and the update stamp set.
pub open spec fn updated_view(prev: AssetView, p: PayloadView, now: u64) -> AssetView {
    AssetView {
        id: prev.id,
        title: p.title,
        description: p.description,
        asset_url: p.asset_url,
        price: p.price,
        creator_id: prev.creator_id,
        created_at: prev.created_at,
        updated_at: Option::Some(now),
    }
}

/// The contents of a store that holds no records.
pub open spec fn no_assets() -> Map<u64, AssetView> {
    Map::empty()
}

/// The storage context: the durable id counter and the durable record map,
/// opened over one backing memory and owned exclusively by the service.
pub struct AssetStore {
    counter: IdCell,
    records: RecordMap,
}

impl AssetStore {
    /// The id assigned by the most recent add; zero before the first one.
    pub closed spec fn last_id(self) -> u64 {
        cell_value(self.counter)
    }

    /// The raw bytes durably stored under each id.
    pub closed spec fn raw(self) -> Map<u64, Seq<u8>> {
        map_contents(self.records)
    }

    /// The records in the store, as mathematical values.
    pub open spec fn assets(self) -> Map<u64, AssetView> {
        Map::new(
            |k: u64| self.raw().contains_key(k),
            |k: u64| decode_spec(self.raw()[k]).unwrap(),
        )
    }

    /// Well-formedness: every stored byte string decodes to a record whose id
    /// is its key, and no stored key exceeds the last assigned id.
    pub open spec fn wf(self) -> bool {
        forall|k: u64| #[trigger] self.raw().contains_key(k) ==> {
            &&& decode_spec(self.raw()[k]) is Some
            &&& decode_spec(self.raw()[k]).unwrap().id == k
            &&& k <= self.last_id()
        }
    }

    /// Opens the store over brand-new backing memory: two fresh regions, a
    /// counter at zero, and an empty record map.
    pub fn open() -> (r: AssetStore)
        ensures
            r.wf(),
            r.last_id() == 0,
            r.assets() == no_assets(),
    {
        let (counter_region, records_region) = fresh_regions();
        let counter = IdCell::init(counter_region, 0);
        let records = RecordMap::init(records_region);
        let store = AssetStore { counter, records };
        proof {
            assert(store.assets() =~= no_assets());
        }
        store
    }

    /// The value of the durable id counter: the last assigned id.
    pub fn current_last_id(&self) -> (r: u64)
        ensures
            r == self.last_id(),
    {
        self.counter.get()
    }

    /// Point lookup that reports absence as `None`; the store is unchanged.
    pub fn _get_asset(&self, id: &u64) -> (r: Option<Asset>)
        requires
            self.wf(),
        ensures
            match r {
                Option::Some(a) => self.assets().contains_key(*id) && a@ == self.assets()[*id],
                Option::None => !self.assets().contains_key(*id),
            },
    {
        match self.records.get(*id) {
            Option::Some(bytes) => match Asset::from_bytes(bytes.as_slice()) {
                Option::Some(a) => Option::Some(a),
                Option::None => {
                    proof {
                        assert(false);
                    }
                    Option::None
                },
            },
            Option::None => Option::None,
        }
    }

    /// Point lookup: the record stored under `id`, or `NotFound`.
    pub fn get_asset(&self, id: u64) -> (r: Result<Asset, ServiceError>)
        requires
            self.wf(),
        ensures
            match r {
                Result::Ok(a) => self.assets().contains_key(id) && a@ == self.assets()[id],
                Result::Err(e) => !self.assets().contains_key(id) && e == (ServiceError::NotFound {
                    id,
                }),
            },
    {
        match self._get_asset(&id) {
            Option::Some(asset) => Result::Ok(asset),
            Option::None => Result::Err(ServiceError::NotFound { id }),
        }
    }

    /// Stores the record under its own id. The id must not exceed the last
    /// assigned one, so that every stored key stays at or below the counter.
    pub fn do_insert(&mut self, asset: &Asset)
        requires
            old(self).wf(),
            fits(asset@),
            asset@.id <= old(self).last_id(),
        ensures
            final(self).wf(),
            final(self).last_id() == old(self).last_id(),
            final(self).assets() == old(self).assets().insert(asset@.id, asset@),
    {
        let bytes = asset.to_bytes();
        self.records.insert(asset.id, bytes);
        proof {
            lemma_round_trip(asset@);
            assert(self.assets() =~= old(self).assets().insert(asset@.id, asset@));
        }
    }

    /// Creates a record: assigns the next id by incrementing the durable
    /// counter, stamps the creation time with the caller's clock reading,
    /// stores the record, and returns it. The payload is accepted as is.
    pub fn add_asset(&mut self, asset: AssetPayload, creator_id: u64, now: u64) -> (r: Option<
        Asset,
    >)
        requires
            old(self).wf(),
            old(self).last_id() < u64::MAX,
            strings_fit(asset@.title, asset@.description, asset@.asset_url),
        ensures
            final(self).wf(),
            final(self).last_id() == old(self).last_id() + 1,
            !old(self).assets().contains_key((old(self).last_id() + 1) as u64),
            r matches Some(a) && a@ == created_view(
                asset@,
                (old(self).last_id() + 1) as u64,
                creator_id,
                now,
            ),
            r matches Some(a) ==> final(self).assets() == old(self).assets().insert(a@.id, a@),
    {
        let current = self.counter.get();
        let id = current + 1;
        self.counter.set(id);
        let ghost mid = *self;
        let record = Asset {
            id,
            title: asset.title,
            description: asset.description,
            asset_url: asset.asset_url,
            price: asset.price,
            creator_id,
            created_at: now,
            updated_at: Option::None,
        };
        self.do_insert(&record);
        proof {
            assert(mid.assets() =~= old(self).assets());
            if old(self).assets().contains_key(id) {
                assert(old(self).raw().contains_key(id));
            }
        }
        Option::Some(record)
    }

    /// Overwrites the four mutable fields of the record under `id` from the
    /// payload, stamps the update time, and returns the updated record; the
    /// id, the creator and the creation stamp are kept. Fails with `NotFound`
    /// when `id` is absent, leaving the store unchanged.
    pub fn update_asset(&mut self, id: u64, payload: AssetPayload, now: u64) -> (r: Result<
        Asset,
        ServiceError,
    >)
        requires
            old(self).wf(),
            strings_fit(payload@.title, payload@.description, payload@.asset_url),
        ensures
            final(self).wf(),
            final(self).last_id() == old(self).last_id(),
            match r {
                Result::Ok(a) => {
                    &&& old(self).assets().contains_key(id)
                    &&& a@ == updated_view(old(self).assets()[id], payload@, now)
                    &&& final(self).assets() == old(self).assets().insert(id, a@)
                },
                Result::Err(e) => {
                    &&& !old(self).assets().contains_key(id)
                    &&& e == (ServiceError::NotFound { id })
                    &&& final(self).raw() == old(self).raw()
                    &&& final(self).assets() == old(self).assets()
                },
            },
    {
        match self.records.get(id) {
            Option::Some(bytes) => match Asset::from_bytes(bytes.as_slice()) {
                Option::Some(prev) => {
                    let updated = Asset {
                        id: prev.id,
                        title: payload.title,
                        description: payload.description,
                        asset_url: payload.asset_url,
                        price: payload.price,
                        creator_id: prev.creator_id,
                        created_at: prev.created_at,
                        updated_at: Option::Some(now),
                    };
                    self.do_insert(&updated);
                    Result::Ok(updated)
                },
                Option::None => {
                    proof {
                        assert(false);
                    }
                    Result::Err(ServiceError::NotFound { id })
                },
            },
            Option::None => Result::Err(ServiceError::NotFound { id }),
        }
    }

    /// Removes and returns the record under `id`; fails with `NotFound` when
    /// the id is absent, leaving the store unchanged. The counter keeps its
    /// value, so a deleted id is never assigned again.
    pub fn delete_asset(&mut self, id: u64) -> (r: Result<Asset, ServiceError>)
        requires
            old(self).wf(),
        ensures
            final(self).wf(),
            final(self).last_id() == old(self).last_id(),
            match r {
                Result::Ok(a) => {
                    &&& old(self).assets().contains_key(id)
                    &&& a@ == old(self).assets()[id]
                    &&& final(self).assets() == old(self).assets().remove(id)
                },
                Result::Err(e) => {
                    &&& !old(self).assets().contains_key(id)
                    &&& e == (ServiceError::NotFound { id })
                    &&& final(self).raw() == old(self).raw()
                    &&& final(self).assets() == old(self).assets()
                },
            },
    {
        match self.records.remove(id) {
            Option::Some(bytes) => match Asset::from_bytes(bytes.as_slice()) {
                Option::Some(asset) => {
                    proof {
                        assert(self.assets() =~= old(self).assets().remove(id));
                    }
                    Result::Ok(asset)
                },
                Option::None => {
                    proof {
                        assert(false);
                    }
                    Result::Err(ServiceError::NotFound { id })
                },
            },
            Option::None => {
                proof {
                    assert(self.raw() =~= old(self).raw());
                    assert(self.assets() =~= old(self).assets());
                }
                Result::Err(ServiceError::NotFound { id })
            },
        }
    }
}

/// Lookup after add: the record stored under a freshly assigned id is exactly
/// the record the add returned, and stays so under any number of lookups,
/// since a lookup does not change the store.
pub proof fn lemma_lookup_after_add(pre: AssetStore, post: AssetStore, a: AssetView)
    requires
        post.assets() == pre.assets().insert(a.id, a),
    ensures
        post.assets().contains_key(a.id),
        post.assets()[a.id] == a,
{
}

/// Freshly assigned ids are new: in a well-formed store the next id to be
/// assigned is strictly greater than every stored id, so it is not in the
/// store.
pub proof fn lemma_next_id_fresh(s: AssetStore)
    requires
        s.wf(),
        s.last_id() < u64::MAX,
    ensures
        forall|k: u64| #[trigger] s.assets().contains_key(k) ==> k < s.last_id() + 1,
        !s.assets().contains_key((s.last_id() + 1) as u64),
{
    assert forall|k: u64| #[trigger] s.assets().contains_key(k) implies k < s.last_id() + 1 by {
        assert(s.raw().contains_key(k));
    }
}

/// Ids strictly increase in call order: each add assigns one more than the
/// counter it found, and leaves the counter at the assigned id, so the ids of
/// any sequence of adds are pairwise distinct and strictly increasing.
pub proof fn lemma_add_ids_increase(s0: AssetStore, s1: AssetStore, id1: u64, id2: u64)
    requires
        id1 == s0.last_id() + 1,
        s1.last_id() == id1,
        id2 == s1.last_id() + 1,
    ensures
        id1 < id2,
{
}

/// An update preserves the immutable fields, and — with a clock that never
/// runs backwards — stamps an update time at least the previous one, or at
/// least the creation time on a first update.
pub proof fn lemma_update_preserves_immutables(prev: AssetView, p: PayloadView, now: u64)
    requires
        now >= prev.created_at,
        prev.updated_at matches Some(t) ==> now >= t,
    ensures
        updated_view(prev, p, now).id == prev.id,
        updated_view(prev, p, now).creator_id == prev.creator_id,
        updated_view(prev, p, now).created_at == prev.created_at,
        updated_view(prev, p, now).updated_at matches Some(u) && u >= prev.created_at && (
        prev.updated_at matches Some(t) ==> u >= t),
{
}

/// Delete is terminal: after a successful delete the id is absent, so a later
/// lookup or delete of it fails; and since the id stays at or below the
/// counter, which never decreases, no future add assigns it again.
pub proof fn lemma_delete_terminal(pre: AssetStore, post: AssetStore, id: u64)
    requires
        pre.wf(),
        pre.assets().contains_key(id),
        post.assets() == pre.assets().remove(id),
        post.last_id() == pre.last_id(),
    ensures
        !post.assets().contains_key(id),
        id <= post.last_id(),
{
    assert(pre.raw().contains_key(id));
}

} // verus!
