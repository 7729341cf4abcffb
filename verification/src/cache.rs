//! The item cache: an append-only map from item id to its fetched record,
//! together with the lazily learned "latest" id.
//!
//! The cache does no fetching itself. The host performs a remote fetch when
//! an operation reports that one is needed, then deposits the record here;
//! a record, once inserted, is never replaced or evicted for the rest of the
//! session.

use vstd::prelude::*;

use crate::address::{FieldKind, MAX_ITEM_ID};

verus! {

broadcast use vstd::std_specs::hash::group_hash_axioms;

/// One item's metadata, immutable once fetched. Textual fields are held as
/// their raw bytes; `image` holds the raw image bytes.
#[derive(Debug)]
pub struct Record {
    pub id: u64,
    pub title: Vec<u8>,
    pub alt: Vec<u8>,
    pub transcript: Vec<u8>,
    pub image: Vec<u8>,
    pub year: Vec<u8>,
    pub month: Vec<u8>,
    pub day: Vec<u8>,
    pub link: Vec<u8>,
}

impl Record {
    /// A record is well formed when its id is a valid, representable item id.
    pub open spec fn wf(self) -> bool {
        1 <= self.id <= MAX_ITEM_ID
    }

    /// The bytes backing one of the record's three field files.
    pub open spec fn spec_field_bytes(self, kind: FieldKind) -> Seq<u8> {
        match kind {
            FieldKind::Title => self.title@,
            FieldKind::Alt => self.alt@,
            FieldKind::Image => self.image@,
        }
    }

    /// The content of the field file of `kind`.
    pub fn field_bytes(&self, kind: FieldKind) -> (r: &Vec<u8>)
        ensures
            r@ == self.spec_field_bytes(kind),
    {
        match kind {
            FieldKind::Title => &self.title,
            FieldKind::Alt => &self.alt,
            FieldKind::Image => &self.image,
        }
    }
}

/// The cache of fetched records. `latest` is 0 until the latest id has been
/// learned from the remote source, and never changes once set.
pub struct ItemCache {
    pub latest: u64,
    pub records: std::collections::HashMap<u64, Record>,
}

impl ItemCache {
    /// Every cached record is well formed and sits under its own id, and the
    /// latest item's record, once the latest id is known, is already cached.
    pub open spec fn wf(self) -> bool {
        &&& self.latest == 0 || (1 <= self.latest <= MAX_ITEM_ID
            && self.records@.contains_key(self.latest))
        &&& forall|id: u64|
            self.records@.contains_key(id) ==> (#[trigger] self.records@[id]).id == id
                && self.records@[id].wf()
    }

    /// Whether the latest id has been learned.
    pub open spec fn has_latest(self) -> bool {
        self.latest != 0
    }

    /// An empty cache that does not yet know the latest id.
    pub fn new() -> (c: ItemCache)
        ensures
            c.wf(),
            !c.has_latest(),
            c.records@ == Map::<u64, Record>::empty(),
    {
        ItemCache { latest: 0, records: std::collections::HashMap::new() }
    }

    /// Whether item `id`'s record is cached.
    pub fn has_record(&self, id: u64) -> (r: bool)
        ensures
            r == self.records@.contains_key(id),
    {
        self.records.contains_key(&id)
    }

    /// The cached record of item `id`, if any.
    pub fn get_record(&self, id: u64) -> (r: Option<&Record>)
        ensures
            match r {
                Some(rec) => self.records@.contains_key(id) && *rec == self.records@[id],
                None => !self.records@.contains_key(id),
            },
    {
        self.records.get(&id)
    }

    /// Learns the latest id from its freshly fetched record and caches that
    /// record. Called once, after the first successful latest-pointer fetch.
    pub fn set_latest(&mut self, rec: Record)
        requires
            old(self).wf(),
            !old(self).has_latest(),
            rec.wf(),
        ensures
            final(self).wf(),
            final(self).latest == rec.id,
            final(self).records@ == old(self).records@.insert(rec.id, rec),
    {
        self.latest = rec.id;
        self.records.insert(rec.id, rec);
    }

    /// Caches the freshly fetched record of one item. The cache is
    /// append-only: a record may only be inserted for an id not yet cached,
    /// and the latest id does not move.
    pub fn insert_record(&mut self, rec: Record)
        requires
            old(self).wf(),
            rec.wf(),
            !old(self).records@.contains_key(rec.id),
        ensures
            final(self).wf(),
            final(self).latest == old(self).latest,
            final(self).records@ == old(self).records@.insert(rec.id, rec),
    {
        self.records.insert(rec.id, rec);
    }
}

} // verus!
