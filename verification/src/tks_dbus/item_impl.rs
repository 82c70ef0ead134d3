//! The D-Bus objects of items: one handle per item, published under the item's path, and
//! the item properties and methods that clients call on them.

use vstd::prelude::*;
use crate::error::TksError;
use crate::storage::attributes::Attributes;
use crate::storage::collection::{Collection, Item, ItemId};
use crate::storage::{collection_index, collection_not_found_message, item_location, item_updated, same_contents, Storage};
use crate::crypto::c_int_max;
use crate::storage::collection::item_index;
use crate::text::{from_literal, same_text};
use crate::tks_dbus::session_impl::SessionManager;
use crate::tks_dbus::{item_path, lemma_item_path_injective, make_item_path, trailing_number, trailing_number_of, DBusHandle, DBusHandlePath, PathsView};

verus! {

/// The D-Bus object of an item.
#[derive(Debug)]
pub struct ItemImpl {
    pub item_id: ItemId,
    pub path: String,
}

impl Clone for ItemImpl {
    fn clone(&self) -> (r: ItemImpl)
        ensures
            r.item_id == self.item_id,
            r.path@ == self.path@,
    {
        ItemImpl { item_id: self.item_id, path: self.path.clone() }
    }
}

impl Default for ItemImpl {
    /// The placeholder handle: nil ids, root path.
    fn default() -> (r: ItemImpl)
        ensures
            r.item_id.uuid == 0,
            r.item_id.collection_uuid == 0,
            r.path@ == "/"@,
    {
        ItemImpl { item_id: ItemId { uuid: 0, collection_uuid: 0 }, path: from_literal("/") }
    }
}

impl DBusHandle for ItemImpl {
    open spec fn handle_path(&self) -> PathsView {
        PathsView::Single(self.path@)
    }

    fn path(&self) -> (r: DBusHandlePath) {
        DBusHandlePath::SinglePath(self.path.clone())
    }
}

impl ItemImpl {
    /// The handle of item `item_id`, under the path of its collection.
    fn new(item_id: &ItemId) -> (r: ItemImpl)
        ensures
            r.item_id == *item_id,
            r.path@ == item_path(item_id.collection_uuid, item_id.uuid),
    {
        ItemImpl { path: make_item_path(item_id.collection_uuid, item_id.uuid), item_id: *item_id }
    }

    /// This is the placeholder handle (nil item id).
    pub fn is_default(&self) -> (r: bool)
        ensures
            r == (self.item_id.uuid == 0),
    {
        self.item_id.uuid == 0
    }

    pub fn is_not_default(&self) -> (r: bool)
        ensures
            r == (self.item_id.uuid != 0),
    {
        !self.is_default()
    }
}

/// The handles of the items published so far, at most one per item id.
pub struct ItemHandles {
    pub handles: Vec<ItemImpl>,
}

impl ItemHandles {
    /// There is a handle for item `uuid`.
    pub open spec fn has(&self, uuid: u128) -> bool {
        exists|k: int| 0 <= k < self.handles@.len() && #[trigger] self.handles@[k].item_id.uuid == uuid
    }

    /// The path of the handle of item `uuid`.
    pub open spec fn path_of(&self, uuid: u128) -> Seq<char> {
        self.handles@[choose|k: int| 0 <= k < self.handles@.len() && #[trigger] self.handles@[k].item_id.uuid == uuid].path@
    }

    pub proof fn lemma_path_of(&self, k: int)
        requires
            self.wf(),
            0 <= k < self.handles@.len(),
        ensures
            self.path_of(self.handles@[k].item_id.uuid) == self.handles@[k].path@,
    {
        let u = self.handles@[k].item_id.uuid;
        let c = choose|c: int| 0 <= c < self.handles@.len() && #[trigger] self.handles@[c].item_id.uuid == u;
        assert(0 <= c < self.handles@.len() && self.handles@[c].item_id.uuid == u);
        if c != k {
            assert(self.handles@[c].item_id.uuid != self.handles@[k].item_id.uuid);
        }
    }

    /// One handle per item id, each under the path of its item.
    pub open spec fn wf(&self) -> bool {
        &&& forall|j: int, k: int| 0 <= j < self.handles@.len() && 0 <= k < self.handles@.len() && j != k
            ==> (#[trigger] self.handles@[j]).item_id.uuid != (#[trigger] self.handles@[k]).item_id.uuid
        &&& forall|k: int| 0 <= k < self.handles@.len() ==> (#[trigger] self.handles@[k]).path@ == item_path(
            self.handles@[k].item_id.collection_uuid,
            self.handles@[k].item_id.uuid,
        )
    }

    pub fn new() -> (r: ItemHandles)
        ensures
            r.handles@.len() == 0,
            r.wf(),
    {
        ItemHandles { handles: Vec::new() }
    }

    /// Law: an object path names at most one published item.
    pub proof fn lemma_path_names_one_handle(&self, j: int, k: int)
        requires
            self.wf(),
            0 <= j < self.handles@.len(),
            0 <= k < self.handles@.len(),
            self.handles@[j].path@ == self.handles@[k].path@,
        ensures
            j == k,
    {
        let a = self.handles@[j].item_id;
        let b = self.handles@[k].item_id;
        lemma_item_path_injective(a.collection_uuid, a.uuid, b.collection_uuid, b.uuid);
    }

    /// Law: looking up the path of a published item (as [`ItemHandles::find_by_path`]
    /// describes its result `r`) gives back that item.
    pub proof fn lemma_lookup_by_own_path(&self, k: int, r: ItemImpl)
        requires
            self.wf(),
            0 <= k < self.handles@.len(),
            exists|m: int| 0 <= m < self.handles@.len() && #[trigger] self.handles@[m].item_id == r.item_id
                && self.handles@[m].path@ == r.path@ && r.path@ == self.handles@[k].path@,
        ensures
            r.item_id == self.handles@[k].item_id,
    {
        let m = choose|m: int| 0 <= m < self.handles@.len() && #[trigger] self.handles@[m].item_id == r.item_id
            && self.handles@[m].path@ == r.path@ && r.path@ == self.handles@[k].path@;
        self.lemma_path_names_one_handle(m, k);
    }

    fn position(&self, uuid: u128) -> (r: Option<usize>)
        ensures
            r matches Some(k) ==> k < self.handles@.len() && self.handles@[k as int].item_id.uuid == uuid,
            r is None ==> !self.has(uuid),
    {
        let mut k: usize = 0;
        while k < self.handles.len()
            invariant
                k <= self.handles@.len(),
                forall|m: int| 0 <= m < k ==> self.handles@[m].item_id.uuid != uuid,
            decreases self.handles@.len() - k,
        {
            if self.handles[k].item_id.uuid == uuid {
                return Some(k);
            }
            k = k + 1;
        }
        None
    }

    /// The path of the handle of item `uuid`.
    pub fn uuid_to_path(&self, uuid: u128) -> (r: String)
        requires
            self.has(uuid),
        ensures
            exists|k: int| 0 <= k < self.handles@.len() && #[trigger] self.handles@[k].item_id.uuid == uuid
                && r@ == self.handles@[k].path@,
    {
        let k = self.position(uuid).unwrap();
        self.handles[k].path.clone()
    }

    /// The handle of item `item_id`, made when there is none for its id yet (the flag
    /// tells); a handle already there is kept as it is.
    pub fn get_or_insert(&mut self, item_id: &ItemId) -> (r: (ItemImpl, bool))
        requires
            old(self).wf(),
        ensures
            final(self).wf(),
            final(self).has(item_id.uuid),
            r.0.item_id.uuid == item_id.uuid,
            r.0.path@ == item_path(r.0.item_id.collection_uuid, item_id.uuid),
            old(self).has(item_id.uuid) ==> !r.1 && final(self).handles@ == old(self).handles@
                && exists|k: int| 0 <= k < old(self).handles@.len() && #[trigger] old(self).handles@[k].item_id == r.0.item_id
                    && old(self).handles@[k].path@ == r.0.path@,
            !old(self).has(item_id.uuid) ==> r.1 && r.0.item_id == *item_id && final(self).handles@.len()
                == old(self).handles@.len() + 1 && final(self).handles@.drop_last() == old(self).handles@
                && final(self).handles@.last().item_id == *item_id,
            old(self).handles@.is_prefix_of(final(self).handles@),
            r.0.path@ == final(self).path_of(item_id.uuid),
            forall|u: u128| #[trigger] old(self).has(u) ==> final(self).has(u) && final(self).path_of(u) == old(self).path_of(u),
    {
        proof {
            assert forall|u: u128| #[trigger] old(self).has(u) implies old(self).path_of(u) == old(self).handles@[
                choose|k: int| 0 <= k < old(self).handles@.len() && #[trigger] old(self).handles@[k].item_id.uuid == u
            ].path@ by {}
        }
        match self.position(item_id.uuid) {
            Some(k) => {
                proof { self.lemma_path_of(k as int); }
                (self.handles[k].clone(), false)
            },
            None => {
                let h = ItemImpl::new(item_id);
                let copy = h.clone();
                let ghost before = self.handles@;
                self.handles.push(h);
                proof {
                    assert(self.handles@.drop_last() =~= before);
                    assert(self.handles@[before.len() as int].item_id.uuid == item_id.uuid);
                    assert forall|j: int, k: int| 0 <= j < self.handles@.len() && 0 <= k < self.handles@.len() && j != k
                        implies (#[trigger] self.handles@[j]).item_id.uuid != (#[trigger] self.handles@[k]).item_id.uuid by {
                        if j < before.len() && k < before.len() {
                            assert(before[j].item_id.uuid != before[k].item_id.uuid);
                        } else if j < before.len() {
                            assert(before[j].item_id.uuid != item_id.uuid);
                        } else {
                            assert(before[k].item_id.uuid != item_id.uuid);
                        }
                    }
                    self.lemma_path_of(before.len() as int);
                    assert forall|u: u128| #[trigger] old(self).has(u) implies self.has(u) && self.path_of(u) == old(
                        self,
                    ).path_of(u) by {
                        let k = choose|k: int| 0 <= k < before.len() && #[trigger] before[k].item_id.uuid == u;
                        old(self).lemma_path_of(k);
                        assert(self.handles@[k] == before[k]);
                        self.lemma_path_of(k);
                    }
                    assert(before.is_prefix_of(self.handles@));
                }
                (copy, true)
            },
        }
    }

    /// Forgets the handle of item `uuid`, if there is one.
    pub fn remove(&mut self, uuid: u128)
        requires
            old(self).wf(),
        ensures
            final(self).wf(),
            !final(self).has(uuid),
            forall|u: u128| u != uuid ==> (old(self).has(u) <==> final(self).has(u)),
    {
        match self.position(uuid) {
            Some(k) => {
                let ghost before = self.handles@;
                let _ = self.handles.remove(k);
                proof {
                    assert(self.handles@ =~= before.remove(k as int));
                    assert forall|m: int| 0 <= m < self.handles@.len() implies #[trigger] self.handles@[m].item_id.uuid
                        != uuid by {
                        if m < k {
                            assert(before[m].item_id.uuid != before[k as int].item_id.uuid);
                        } else {
                            assert(before[m + 1].item_id.uuid != before[k as int].item_id.uuid);
                        }
                    }
                    assert forall|u: u128| u != uuid implies (old(self).has(u) <==> self.has(u)) by {
                        if old(self).has(u) {
                            let m = choose|m: int| 0 <= m < before.len() && #[trigger] before[m].item_id.uuid == u;
                            if m < k {
                                assert(self.handles@[m].item_id.uuid == u);
                            } else {
                                assert(m != k);
                                assert(self.handles@[m - 1].item_id.uuid == u);
                            }
                        }
                        if self.has(u) {
                            let m = choose|m: int| 0 <= m < self.handles@.len() && #[trigger] self.handles@[m].item_id.uuid
                                == u;
                            if m < k {
                                assert(before[m].item_id.uuid == u);
                            } else {
                                assert(before[m + 1].item_id.uuid == u);
                            }
                        }
                    }
                }
            },
            None => {},
        }
    }

    /// A handle published under path `p`, or the placeholder handle when there is none.
    pub fn find_by_path(&self, p: &str) -> (r: ItemImpl)
        ensures
            (exists|k: int| 0 <= k < self.handles@.len() && (#[trigger] self.handles@[k]).path@ == p@) ==> exists|k: int|
                0 <= k < self.handles@.len() && #[trigger] self.handles@[k].item_id == r.item_id && self.handles@[k].path@ == r.path@
                    && r.path@ == p@,
            (forall|k: int| 0 <= k < self.handles@.len() ==> (#[trigger] self.handles@[k]).path@ != p@) ==> r.item_id.uuid
                == 0 && r.item_id.collection_uuid == 0 && r.path@ == "/"@,
    {
        let mut k: usize = 0;
        while k < self.handles.len()
            invariant
                k <= self.handles@.len(),
                forall|m: int| 0 <= m < k ==> self.handles@[m].path@ != p@,
            decreases self.handles@.len() - k,
        {
            if same_text(self.handles[k].path.as_str(), p) {
                return self.handles[k].clone();
            }
            k = k + 1;
        }
        ItemImpl::default()
    }
}

impl ItemImpl {
    /// The handle of item `item_id`, made when there is none for its id yet.
    pub fn from_item_id(handles: &mut ItemHandles, item_id: &ItemId) -> (r: ItemImpl)
        requires
            old(handles).wf(),
        ensures
            final(handles).wf(),
            final(handles).has(item_id.uuid),
            r.item_id.uuid == item_id.uuid,
            r.path@ == item_path(r.item_id.collection_uuid, item_id.uuid),
            !old(handles).has(item_id.uuid) ==> r.item_id == *item_id,
            old(handles).has(item_id.uuid) ==> final(handles).handles@ == old(handles).handles@,
            r.path@ == final(handles).path_of(item_id.uuid),
            old(handles).handles@.is_prefix_of(final(handles).handles@),
    {
        let (h, _) = handles.get_or_insert(item_id);
        h
    }

    /// The handle of `item`, made when there is none for its id yet.
    pub fn from_item(handles: &mut ItemHandles, item: &Item) -> (r: ItemImpl)
        requires
            old(handles).wf(),
        ensures
            final(handles).wf(),
            final(handles).has(item.id.uuid),
            r.item_id.uuid == item.id.uuid,
            r.path@ == item_path(r.item_id.collection_uuid, item.id.uuid),
            !old(handles).has(item.id.uuid) ==> r.item_id == item.id,
            old(handles).has(item.id.uuid) ==> final(handles).handles@ == old(handles).handles@,
    {
        ItemImpl::from_item_id(handles, &item.id)
    }

    /// The handle published under path `p`, or the placeholder handle.
    pub fn from_path(handles: &ItemHandles, p: &str) -> (r: ItemImpl)
        ensures
            (exists|k: int| 0 <= k < handles.handles@.len() && (#[trigger] handles.handles@[k]).path@ == p@) ==> exists|
                k: int,
            |
                0 <= k < handles.handles@.len() && #[trigger] handles.handles@[k].item_id == r.item_id
                    && handles.handles@[k].path@ == r.path@ && r.path@ == p@,
            (forall|k: int| 0 <= k < handles.handles@.len() ==> (#[trigger] handles.handles@[k]).path@ != p@) ==> r.item_id.uuid
                == 0 && r.item_id.collection_uuid == 0 && r.path@ == "/"@,
    {
        handles.find_by_path(p)
    }
}

/// `r` is a D-Bus method failure with message `m`.
pub open spec fn fails_with<T>(r: Result<T, String>, m: Seq<char>) -> bool {
    r matches Err(e) && e@ == m
}

impl ItemImpl {
    /// Whether the item's collection is locked.
    pub fn locked(&self, storage: &Storage) -> (r: Result<bool, String>)
        ensures
            match collection_index(storage.collections@, self.item_id.collection_uuid) {
                None => fails_with(r, "Item not found"@),
                Some(j) => r == Ok::<bool, String>(storage.collections@[j].locked),
            },
    {
        match storage.collection_position(self.item_id.collection_uuid) {
            Some(j) => Ok(storage.collections[j].locked),
            None => Err(from_literal("Item not found")),
        }
    }

    /// The item's label.
    pub fn label(&self, storage: &Storage) -> (r: Result<String, String>)
        ensures
            match item_location(storage.collections@, self.item_id.collection_uuid, self.item_id.uuid) {
                Some((j, k)) => r matches Ok(l) && l@ == storage.collections@[j].items@[k].label@,
                None => if collection_index(storage.collections@, self.item_id.collection_uuid) is None {
                    fails_with(r, "IO error: "@ + collection_not_found_message(self.item_id.collection_uuid))
                } else {
                    fails_with(r, "Not found"@)
                },
            },
    {
        match storage.locate_item(self.item_id.collection_uuid, self.item_id.uuid) {
            Ok((j, k)) => Ok(storage.collections[j].items[k].label.clone()),
            Err(e) => Err(e.to_string()),
        }
    }

    /// The item's attributes.
    pub fn attributes(&self, storage: &Storage) -> (r: Result<Attributes, String>)
        ensures
            match item_location(storage.collections@, self.item_id.collection_uuid, self.item_id.uuid) {
                Some((j, k)) => r matches Ok(a) && a@ == storage.collections@[j].items@[k].attributes@,
                None => fails_with(r, "Item not found"@),
            },
    {
        match storage.locate_item(self.item_id.collection_uuid, self.item_id.uuid) {
            Ok((j, k)) => Ok(storage.collections[j].items[k].attributes.clone()),
            Err(_) => Err(from_literal("Item not found")),
        }
    }

    /// When the item was created (seconds since the Unix epoch).
    pub fn created(&self, storage: &Storage) -> (r: Result<u64, String>)
        ensures
            match item_location(storage.collections@, self.item_id.collection_uuid, self.item_id.uuid) {
                Some((j, k)) => r == Ok::<u64, String>(storage.collections@[j].items@[k].created),
                None => fails_with(r, "Item not found"@),
            },
    {
        match storage.locate_item(self.item_id.collection_uuid, self.item_id.uuid) {
            Ok((j, k)) => Ok(storage.collections[j].items[k].created),
            Err(_) => Err(from_literal("Item not found")),
        }
    }

    /// When the item was last modified (seconds since the Unix epoch).
    pub fn modified(&self, storage: &Storage) -> (r: Result<u64, String>)
        ensures
            match item_location(storage.collections@, self.item_id.collection_uuid, self.item_id.uuid) {
                Some((j, k)) => r == Ok::<u64, String>(storage.collections@[j].items@[k].modified),
                None => fails_with(r, "Item not found"@),
            },
    {
        match storage.locate_item(self.item_id.collection_uuid, self.item_id.uuid) {
            Ok((j, k)) => Ok(storage.collections[j].items[k].modified),
            Err(_) => Err(from_literal("Item not found")),
        }
    }

    /// Renames the item at time `ts`.
    pub fn set_label(&self, storage: &mut Storage, value: String, ts: u64) -> (r: Result<(), String>)
        ensures
            final(storage).backend == old(storage).backend,
            match item_location(old(storage).collections@, self.item_id.collection_uuid, self.item_id.uuid) {
                None => fails_with(r, "Item not found"@) && *final(storage) == *old(storage),
                Some((j, k)) => {
                    let o = old(storage).collections@[j].items@[k];
                    let n = final(storage).collections@[j].items@[k];
                    &&& r is Ok
                    &&& item_updated(old(storage).collections@, final(storage).collections@, j, k, ts)
                    &&& n.label@ == value@ && n.attributes == o.attributes && n.data == o.data
                },
            },
    {
        let (j, k) = match storage.locate_item(self.item_id.collection_uuid, self.item_id.uuid) {
            Ok(p) => p,
            Err(_) => return Err(from_literal("Item not found")),
        };
        storage.collections[j].items[k].label = value;
        storage.collections[j].items[k].modified = ts;
        storage.collections[j].modified = ts;
        Ok(())
    }
}

/// `new` is `old` but for collection `j`, whose items are `items` and which is stamped as
/// modified at `ts`.
pub open spec fn collection_touched(old: Seq<Collection>, new: Seq<Collection>, j: int, items: Seq<Item>, ts: u64) -> bool {
    let o = old[j];
    let n = new[j];
    &&& new.len() == old.len()
    &&& forall|m: int| 0 <= m < old.len() && m != j ==> new[m] == old[m]
    &&& n.schema_version == o.schema_version && n.uuid == o.uuid && n.default == o.default
    &&& n.name == o.name && n.aliases == o.aliases && n.created == o.created
    &&& n.path == o.path && n.items_path == o.items_path && n.locked == o.locked
    &&& n.modified == ts
    &&& n.items@ == items
}

impl ItemImpl {
    /// Replaces the item's attributes at time `ts`.
    pub fn set_attributes(&self, storage: &mut Storage, value: Attributes, ts: u64) -> (r: Result<(), String>)
        ensures
            final(storage).backend == old(storage).backend,
            collection_index(old(storage).collections@, self.item_id.collection_uuid) is None ==> fails_with(
                r,
                "IO error: "@ + "Collection not found"@,
            ) && *final(storage) == *old(storage),
            collection_index(old(storage).collections@, self.item_id.collection_uuid) is Some && item_location(
                old(storage).collections@,
                self.item_id.collection_uuid,
                self.item_id.uuid,
            ) is None ==> fails_with(r, "Not found"@) && *final(storage) == *old(storage),
            item_location(old(storage).collections@, self.item_id.collection_uuid, self.item_id.uuid) matches Some(
                (j, k),
            ) ==> {
                let o = old(storage).collections@[j].items@[k];
                let n = final(storage).collections@[j].items@[k];
                &&& r is Ok
                &&& item_updated(old(storage).collections@, final(storage).collections@, j, k, ts)
                &&& n.attributes@ == value@ && n.label == o.label && n.data == o.data
            },
    {
        let j = match storage.collection_position(self.item_id.collection_uuid) {
            Some(j) => j,
            None => return Err(TksError::IOError(from_literal("Collection not found")).to_string()),
        };
        let k = match storage.collections[j].item_position(self.item_id.uuid) {
            Some(k) => k,
            None => return Err(TksError::NotFound(None).to_string()),
        };
        storage.collections[j].items[k].attributes = value;
        storage.collections[j].items[k].modified = ts;
        storage.collections[j].modified = ts;
        Ok(())
    }

    /// The content type of the item's secret. The secret of an item of an unlocked
    /// collection is always there.
    pub fn type_(&self, storage: &Storage) -> (r: Result<String, String>)
        requires
            item_location(storage.collections@, self.item_id.collection_uuid, self.item_id.uuid) matches Some((j, k))
                ==> (!storage.collections@[j].locked ==> storage.collections@[j].items@[k].data is Some),
        ensures
            match collection_index(storage.collections@, self.item_id.collection_uuid) {
                None => fails_with(r, "Item not found"@),
                Some(j) => if storage.collections@[j].locked {
                    fails_with(r, "Item is locked"@)
                } else {
                    match item_index(storage.collections@[j].items@, self.item_id.uuid) {
                        None => fails_with(r, "Not found"@),
                        Some(k) => r matches Ok(t) && storage.collections@[j].items@[k].data matches Some(d)
                            && t@ == d.content_type@,
                    }
                },
            },
    {
        if self.locked(storage)? {
            return Err(from_literal("Item is locked"));
        }
        match storage.locate_item(self.item_id.collection_uuid, self.item_id.uuid) {
            Ok((j, k)) => Ok(storage.collections[j].items[k].data.as_ref().unwrap().content_type.clone()),
            Err(e) => Err(e.to_string()),
        }
    }

    /// Sets the content type of the item's secret at time `ts`.
    pub fn set_type(&self, storage: &mut Storage, value: String, ts: u64) -> (r: Result<(), String>)
        requires
            item_location(old(storage).collections@, self.item_id.collection_uuid, self.item_id.uuid) matches Some((j, k))
                ==> (!old(storage).collections@[j].locked ==> old(storage).collections@[j].items@[k].data is Some),
        ensures
            final(storage).backend == old(storage).backend,
            match collection_index(old(storage).collections@, self.item_id.collection_uuid) {
                None => fails_with(r, "Item not found"@) && *final(storage) == *old(storage),
                Some(j) => if old(storage).collections@[j].locked {
                    fails_with(r, "Item is locked"@) && *final(storage) == *old(storage)
                } else {
                    match item_index(old(storage).collections@[j].items@, self.item_id.uuid) {
                        None => fails_with(r, "Item not found"@) && *final(storage) == *old(storage),
                        Some(k) => {
                            let o = old(storage).collections@[j].items@[k];
                            let n = final(storage).collections@[j].items@[k];
                            &&& r is Ok
                            &&& item_updated(old(storage).collections@, final(storage).collections@, j, k, ts)
                            &&& n.label == o.label && n.attributes == o.attributes
                            &&& o.data matches Some(od) && n.data matches Some(nd) && nd.content_type@ == value@
                                && nd.uuid == od.uuid && nd.data == od.data
                        },
                    }
                },
            },
    {
        match self.locked(storage) {
            Ok(true) => return Err(from_literal("Item is locked")),
            Ok(false) => {},
            Err(_) => return Err(from_literal("Item not found")),
        }
        let (j, k) = match storage.locate_item(self.item_id.collection_uuid, self.item_id.uuid) {
            Ok(p) => p,
            Err(_) => return Err(from_literal("Item not found")),
        };
        let mut data = storage.collections[j].items[k].data.take().unwrap();
        data.content_type = value;
        storage.collections[j].items[k].data = Some(data);
        storage.collections[j].items[k].modified = ts;
        storage.collections[j].modified = ts;
        Ok(())
    }

    /// Deletes the item at time `ts`; its handle is forgotten. Returns the path of the
    /// prompt, `/` as none is needed.
    pub fn delete(&self, storage: &mut Storage, handles: &mut ItemHandles, ts: u64) -> (r: Result<String, String>)
        requires
            old(handles).wf(),
        ensures
            final(handles).wf(),
            final(storage).backend == old(storage).backend,
            match collection_index(old(storage).collections@, self.item_id.collection_uuid) {
                None => fails_with(r, "Item not found"@) && *final(storage) == *old(storage) && *final(handles)
                    == *old(handles),
                Some(j) => {
                    let items = old(storage).collections@[j].items@;
                    if old(storage).collections@[j].locked {
                        &&& fails_with(r, "Item not found"@)
                        &&& collection_touched(old(storage).collections@, final(storage).collections@, j, items, ts)
                        &&& *final(handles) == *old(handles)
                    } else {
                        match item_index(items, self.item_id.uuid) {
                            None => {
                                &&& fails_with(r, "Item not found"@)
                                &&& collection_touched(old(storage).collections@, final(storage).collections@, j, items, ts)
                                &&& *final(handles) == *old(handles)
                            },
                            Some(k) => {
                                &&& r matches Ok(p) && p@ == "/"@
                                &&& collection_touched(
                                    old(storage).collections@,
                                    final(storage).collections@,
                                    j,
                                    items.update(k, items.last()).drop_last(),
                                    ts,
                                )
                                &&& !final(handles).has(self.item_id.uuid)
                                &&& forall|u: u128| u != self.item_id.uuid ==> (old(handles).has(u) <==> final(handles).has(u))
                            },
                        }
                    }
                },
            },
    {
        let j = match storage.collection_position(self.item_id.collection_uuid) {
            Some(j) => j,
            None => return Err(from_literal("Item not found")),
        };
        let ghost items = storage.collections@[j as int].items@;
        let result = storage.collections[j].delete_item(self.item_id.uuid);
        storage.collections[j].modified = ts;
        match result {
            Ok(_) => {
                proof {
                    let w = choose|w: int| #![trigger items[w]] 0 <= w < items.len() && items[w].id.uuid == self.item_id.uuid
                        && (forall|m: int| 0 <= m < w ==> items[m].id.uuid != self.item_id.uuid)
                        && storage.collections@[j as int].items@ == items.update(w, items.last()).drop_last();
                    crate::storage::collection::lemma_item_index(items, self.item_id.uuid, w);
                }
                handles.remove(self.item_id.uuid);
                Ok(from_literal("/"))
            },
            Err(_) => {
                proof {
                    assert(storage.collections@[j as int].items@ =~= old(storage).collections@[j as int].items@);
                }
                Err(from_literal("Item not found"))
            },
        }
    }
}

/// `r` is the reply to a client asking for the secret of item `item_id` in the session
/// whose path is `session` (`has_sender` telling whether the request carries the caller's
/// bus name): see [`ItemImpl::get_secret`].
pub open spec fn secret_reply(
    cols: Seq<Collection>,
    sessions: &SessionManager,
    item_id: ItemId,
    session: Seq<char>,
    has_sender: bool,
    r: Result<(String, Vec<u8>, Vec<u8>, String), String>,
) -> bool {
    match collection_index(cols, item_id.collection_uuid) {
        None => fails_with(r, "Item not found"@),
        Some(j) => if cols[j].locked {
            fails_with(r, "Item is locked"@)
        } else if !has_sender {
            fails_with(r, "Unkown sender"@)
        } else {
            match trailing_number(session) {
                None => fails_with(r, "Invalid session ID"@),
                Some(id) => if !sessions.table().dom().contains(id) {
                    fails_with(r, "Session not found"@)
                } else {
                    match item_index(cols[j].items@, item_id.uuid) {
                        None => fails_with(r, "Not found"@),
                        Some(k) => match cols[j].items@[k].data {
                            None => fails_with(r, "IO error: "@ + "Item is locked"@),
                            Some(d) => match r {
                                Ok((p, iv, secret, ct)) => p@ == session && ct@ == d.content_type@
                                    && sessions.table()[id].encrypts_to(d.data@, iv@, secret@),
                                Err(m) => m@ == "IO error: "@ + "Data cannot be prepared"@
                                    && !sessions.table()[id].is_plain(),
                            },
                        },
                    }
                }
            }
        },
    }
}

/// In `cols`, item `item_id` holds the secret that a client sent encrypted in the session
/// whose path is `session`: the IV `iv`, the encrypted bytes `sealed` and the content type
/// `ct`; its collection is unlocked and the session is open.
pub open spec fn secret_written(
    cols: Seq<Collection>,
    sessions: SessionManager,
    item_id: ItemId,
    session: Seq<char>,
    iv: Seq<u8>,
    sealed: Seq<u8>,
    ct: Seq<char>,
) -> bool {
    match (item_location(cols, item_id.collection_uuid, item_id.uuid), trailing_number(session)) {
        (Some((j, k)), Some(id)) => {
            &&& !cols[j].locked
            &&& sessions.table().dom().contains(id)
            &&& cols[j].items@[k].data matches Some(d)
            &&& d.content_type@ == ct
            &&& sessions.table()[id].decrypts_to(iv, sealed, d.data@)
        },
        _ => false,
    }
}

/// Law: a client reads back the secret it wrote. Once item `item_id` holds the secret a
/// client sent in a session (as `set_secret` leaves it), the reply of `get_secret` in that
/// same session carries the same content type and a secret that decrypts there to exactly
/// what the written one decrypted to; it can only fail where a session other than `plain`
/// could not encrypt.
pub proof fn lemma_secret_read_back(
    cols: Seq<Collection>,
    sessions: SessionManager,
    item_id: ItemId,
    session: Seq<char>,
    iv: Seq<u8>,
    sealed: Seq<u8>,
    ct: Seq<char>,
    r: Result<(String, Vec<u8>, Vec<u8>, String), String>,
)
    requires
        secret_written(cols, sessions, item_id, session, iv, sealed, ct),
        secret_reply(cols, &sessions, item_id, session, true, r),
    ensures
        ({
            let s = sessions.table()[trailing_number(session)->0];
            match r {
                Ok((p, iv2, sealed2, ct2)) => {
                    &&& p@ == session
                    &&& ct2@ == ct
                    &&& s.decrypted(iv2@, sealed2@) == s.decrypted(iv, sealed)
                    &&& s.decrypted(iv2@, sealed2@) is Some
                },
                Err(_) => !s.is_plain(),
            }
        }),
{
    let (j, k) = item_location(cols, item_id.collection_uuid, item_id.uuid)->0;
    let s = sessions.table()[trailing_number(session)->0];
    let d = cols[j].items@[k].data->0;
    if let Ok((p, iv2, sealed2, ct2)) = r {
        crate::tks_dbus::session_impl::lemma_session_round_trip(s, d.data@, iv2@, sealed2@);
    }
}

impl ItemImpl {
    /// The item's secret, encrypted for the client in the session whose path is `session`:
    /// the session path, the IV, the encrypted secret and its content type. `sender` is the
    /// bus name of the caller, when the message carries one.
    pub fn get_secret(&self, storage: &Storage, sessions: &SessionManager, session: String, sender: Option<String>) -> (r: Result<
        (String, Vec<u8>, Vec<u8>, String),
        String,
    >)
        requires
            sessions.wf(),
            item_location(storage.collections@, self.item_id.collection_uuid, self.item_id.uuid) matches Some((j, k))
                ==> (storage.collections@[j].items@[k].data matches Some(d) ==> d.data@.len() <= c_int_max()),
        ensures
            secret_reply(storage.collections@, sessions, self.item_id, session@, sender is Some, r),
    {
        if self.locked(storage)? {
            return Err(from_literal("Item is locked"));
        }
        if sender.is_none() {
            return Err(from_literal("Unkown sender"));
        }
        let session_id = match trailing_number_of(session.as_str()) {
            Some(id) => id,
            None => return Err(from_literal("Invalid session ID")),
        };
        let s = match sessions.get_session(session_id) {
            Some(s) => s,
            None => return Err(from_literal("Session not found")),
        };
        proof { assert(sessions.table().dom().contains(session_id)); }
        match storage.locate_item(self.item_id.collection_uuid, self.item_id.uuid) {
            Ok((j, k)) => match storage.collections[j].items[k].get_secret(s) {
                Ok((_, iv, secret, ct)) => Ok((session, iv, secret, ct)),
                Err(e) => Err(e.to_string()),
            },
            Err(e) => Err(e.to_string()),
        }
    }

    /// Replaces the item's secret, at time `ts`, with the one the client sent encrypted in
    /// a session: `secret` holds the session path, the IV, the encrypted secret and its
    /// content type. `sender` is the bus name of the caller, when the message carries one.
    pub fn set_secret(
        &self,
        storage: &mut Storage,
        sessions: &SessionManager,
        secret: (String, Vec<u8>, Vec<u8>, String),
        sender: Option<String>,
        ts: u64,
    ) -> (r: Result<(), String>)
        requires
            sessions.wf(),
            secret.1@.len() <= c_int_max(),
            secret.2@.len() <= c_int_max(),
        ensures
            final(storage).backend == old(storage).backend,
            r is Err ==> same_contents(old(storage).collections@, final(storage).collections@),
            match trailing_number(secret.0@) {
                None => fails_with(r, "Invalid session ID"@),
                Some(id) => if sender is None {
                    fails_with(r, "Sender Unknown"@)
                } else {
                    match collection_index(old(storage).collections@, self.item_id.collection_uuid) {
                        None => fails_with(r, "Item not found"@),
                        Some(j) => if old(storage).collections@[j].locked {
                            fails_with(r, "Item is locked"@)
                        } else if !sessions.table().dom().contains(id) {
                            fails_with(r, "Session not found"@)
                        } else {
                            match item_index(old(storage).collections@[j].items@, self.item_id.uuid) {
                                None => fails_with(r, "Item not found"@),
                                Some(k) => {
                                    let o = old(storage).collections@[j].items@[k];
                                    let n = final(storage).collections@[j].items@[k];
                                    let s = sessions.table()[id];
                                    match r {
                                        Ok(_) => {
                                            &&& item_updated(old(storage).collections@, final(storage).collections@, j, k, ts)
                                            &&& n.label == o.label && n.attributes == o.attributes
                                            &&& n.data matches Some(d) && d.uuid == o.id.uuid && d.content_type@ == secret.3@
                                                && s.decrypts_to(secret.1@, secret.2@, d.data@)
                                        },
                                        Err(m) => m@ == "Item not found"@ && s.decrypted(secret.1@, secret.2@) is None,
                                    }
                                },
                            }
                        },
                    }
                },
            },
            r is Ok ==> secret_written(final(storage).collections@, *sessions, self.item_id, secret.0@, secret.1@, secret.2@, secret.3@),
    {
        let (path, parameters, value, content_type) = secret;
        let session_id = match trailing_number_of(path.as_str()) {
            Some(id) => id,
            None => return Err(from_literal("Invalid session ID")),
        };
        if sender.is_none() {
            return Err(from_literal("Sender Unknown"));
        }
        match self.locked(storage) {
            Ok(true) => return Err(from_literal("Item is locked")),
            Ok(false) => {},
            Err(e) => return Err(e),
        }
        let s = match sessions.get_session(session_id) {
            Some(s) => s,
            None => return Err(from_literal("Session not found")),
        };
        proof { assert(sessions.table().dom().contains(session_id)); }
        let (j, k) = match storage.locate_item(self.item_id.collection_uuid, self.item_id.uuid) {
            Ok(p) => p,
            Err(_) => return Err(from_literal("Item not found")),
        };
        match storage.collections[j].items[k].set_secret(s, parameters, &value, content_type) {
            Ok(()) => {
                storage.collections[j].items[k].modified = ts;
                storage.collections[j].modified = ts;
                proof {
                    crate::storage::lemma_item_updated_keeps_location(
                        old(storage).collections@,
                        storage.collections@,
                        j as int,
                        k as int,
                        ts,
                        self.item_id.collection_uuid,
                        self.item_id.uuid,
                    );
                }
                Ok(())
            },
            Err(_) => {
                proof {
                    assert(storage.collections@[j as int].items@ =~= old(storage).collections@[j as int].items@);
                }
                Err(from_literal("Item not found"))
            },
        }
    }
}

} // verus!
