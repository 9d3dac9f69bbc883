//! Data model of the buffered write path: records in their pending and
//! persisted forms, and the traits implemented by generated per-resource
//! endpoint types.
//!
//! A record accepted but not yet durably loaded is a [`PendingRecord`]; once
//! a flush commits it, the store assigns an identity and it becomes a
//! [`PersistedRecord`].  The two are distinct variants of [`ListEntry`] in
//! read results, never a shared sentinel identity.

use vstd::prelude::*;

verus! {

/// A record accepted into the buffer and not yet durably loaded.
/// The payload is the record's canonical serialized row form; the core
/// treats it as opaque bytes.
pub struct PendingRecord {
    pub payload: Vec<u8>,
}

impl View for PendingRecord {
    type V = Seq<u8>;

    open spec fn view(&self) -> Seq<u8> {
        self.payload@
    }
}

/// A record durably loaded into the store, with its store-assigned identity.
pub struct PersistedRecord {
    pub id: u64,
    pub payload: Vec<u8>,
}

impl View for PersistedRecord {
    type V = (u64, Seq<u8>);

    open spec fn view(&self) -> (u64, Seq<u8>) {
        (self.id, self.payload@)
    }
}

/// One element of a merged read result: either still pending in the buffer
/// or already persisted with an identity.
pub enum ListEntry {
    Pending(Vec<u8>),
    Persisted(u64, Vec<u8>),
}

/// Mathematical shape of a [`ListEntry`].
#[verifier::ext_equal]
pub enum EntryView {
    Pending(Seq<u8>),
    Persisted(u64, Seq<u8>),
}

impl View for ListEntry {
    type V = EntryView;

    open spec fn view(&self) -> EntryView {
        match self {
            ListEntry::Pending(p) => EntryView::Pending(p@),
            ListEntry::Persisted(id, p) => EntryView::Persisted(*id, p@),
        }
    }
}

impl ListEntry {
    /// Whether this entry is still awaiting a flush.
    pub fn is_pending(&self) -> (r: bool)
        ensures
            r == (self@ is Pending),
    {
        match self {
            ListEntry::Pending(_) => true,
            ListEntry::Persisted(_, _) => false,
        }
    }
}

/// A resource exposed over HTTP by the generated endpoint handlers.
pub trait Resource {
    /// The path under which the resource's collection is mounted.
    const ENDPOINT: &'static str;
}

/// A resource whose collection can be read.
pub trait CollectionGet: Resource {
    fn collection_get(&self);
}

/// A resource whose collection accepts new records.
pub trait CollectionCreate: Resource {
    fn collection_post(&self);
}

} // verus!
