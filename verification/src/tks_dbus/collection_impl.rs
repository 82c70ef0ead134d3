//! The D-Bus objects of collections: one handle per collection, published under the
//! collection's path (and, for the default collection, under the default alias path too).

use vstd::prelude::*;
use crate::crypto::c_int_max;
use crate::error::TksError;
use crate::storage::attributes::Attributes;
use crate::storage::collection::{has_duplicate, item_added, unlock_outcome, Collection, Item, ItemId, ItemsPayload};
use crate::storage::{collection_index, collection_not_found_message, texts, Storage};
use crate::text::{decimal, from_literal, same_text, usize_to_decimal};
use crate::tks_dbus::item_impl::{fails_with, ItemHandles, ItemImpl};
use crate::tks_dbus::session_impl::SessionManager;
use crate::tks_dbus::prompt_impl::{ConfirmationAction, ConfirmationMessageActionParam, PendingItem, PromptAction, PromptDialog};
use crate::ids::{uuid_text, uuid_to_string};
use crate::tks_dbus::trailing_number;
use crate::tks_dbus::trailing_number_of;
use crate::tks_dbus::{collection_path, make_collection_path, DBusHandle, DBusHandlePath, PathsView};

verus! {

/// Path under which the default collection is also published.
pub open spec fn default_alias_path() -> Seq<char> {
    "/org/freedesktop/secrets/aliases/default"@
}

/// The D-Bus object of a collection.
#[derive(Debug)]
pub struct CollectionImpl {
    pub uuid: u128,
    pub default: bool,
    pub paths: Vec<String>,
}

/// The content of a [`CollectionImpl`].
pub struct CollectionImplView {
    pub uuid: u128,
    pub default: bool,
    pub paths: Seq<Seq<char>>,
}

impl View for CollectionImpl {
    type V = CollectionImplView;

    open spec fn view(&self) -> CollectionImplView {
        CollectionImplView { uuid: self.uuid, default: self.default, paths: texts(self.paths@) }
    }
}

/// Copies a vector of strings.
pub fn copy_strings(v: &Vec<String>) -> (r: Vec<String>)
    ensures
        texts(r@) == texts(v@),
{
    let mut r: Vec<String> = Vec::new();
    let mut i: usize = 0;
    while i < v.len()
        invariant
            i <= v@.len(),
            r@.len() == i,
            forall|m: int| 0 <= m < i ==> #[trigger] r@[m]@ == v@[m]@,
        decreases v@.len() - i,
    {
        r.push(v[i].clone());
        i = i + 1;
    }
    assert(texts(r@) =~= texts(v@));
    r
}

impl Clone for CollectionImpl {
    fn clone(&self) -> (r: CollectionImpl)
        ensures
            r@ == self@,
    {
        CollectionImpl { uuid: self.uuid, default: self.default, paths: copy_strings(&self.paths) }
    }
}

impl Default for CollectionImpl {
    fn default() -> (r: CollectionImpl)
        ensures
            r.uuid == 0,
            !r.default,
            r.paths@.len() == 0,
    {
        CollectionImpl { uuid: 0, default: false, paths: Vec::new() }
    }
}

/// The paths of the handle of collection `uuid`.
pub open spec fn handle_paths(uuid: u128, default: bool) -> Seq<Seq<char>> {
    if default {
        seq![default_alias_path(), collection_path(uuid)]
    } else {
        seq![collection_path(uuid)]
    }
}

impl DBusHandle for CollectionImpl {
    open spec fn handle_path(&self) -> PathsView {
        PathsView::Multiple(texts(self.paths@))
    }

    fn path(&self) -> (r: DBusHandlePath) {
        DBusHandlePath::MultiplePaths(copy_strings(&self.paths))
    }
}

impl CollectionImpl {
    /// The handle of collection `uuid`; the default collection comes first under the
    /// default alias path.
    fn new(uuid: u128, default: bool) -> (r: CollectionImpl)
        ensures
            r.uuid == uuid,
            r.default == default,
            texts(r.paths@) == handle_paths(uuid, default),
    {
        let mut paths: Vec<String> = Vec::new();
        if default {
            paths.push(from_literal("/org/freedesktop/secrets/aliases/default"));
        }
        paths.push(make_collection_path(uuid));
        let r = CollectionImpl { uuid, default, paths };
        assert(texts(r.paths@) =~= handle_paths(uuid, default));
        r
    }

    /// `true` unless this is the placeholder handle (nil uuid) that stands for an unknown
    /// path; it does not tell whether this is the default collection.
    pub fn is_not_default(&self) -> (r: bool)
        ensures
            r == (self.uuid != 0),
    {
        self.uuid != 0
    }
}

/// Handle `h` is published under path `p`.
pub open spec fn holds_path(h: CollectionImpl, p: Seq<char>) -> bool {
    texts(h.paths@).contains(p)
}

/// `k` is the first of `hs` published under path `p`.
pub open spec fn is_first_holder(hs: Seq<CollectionImpl>, p: Seq<char>, k: int) -> bool {
    0 <= k < hs.len() && holds_path(hs[k], p) && forall|m: int| 0 <= m < k ==> !holds_path(hs[m], p)
}

/// The collection id of the first of `hs` published under path `p`, or the nil id.
pub open spec fn path_owner(hs: Seq<CollectionImpl>, p: Seq<char>) -> u128 {
    if exists|k: int| is_first_holder(hs, p, k) {
        hs[choose|k: int| is_first_holder(hs, p, k)].uuid
    } else {
        0
    }
}

pub proof fn lemma_path_owner(hs: Seq<CollectionImpl>, p: Seq<char>, k: int)
    requires
        is_first_holder(hs, p, k),
    ensures
        path_owner(hs, p) == hs[k].uuid,
{
    let c = choose|c: int| is_first_holder(hs, p, c);
    assert(is_first_holder(hs, p, c));
    if c < k {
        assert(!holds_path(hs[c], p));
    } else if c > k {
        assert(!holds_path(hs[k], p));
    }
}

/// The handles of the collections published so far, at most one per collection.
pub struct CollectionHandles {
    pub handles: Vec<CollectionImpl>,
}

impl CollectionHandles {
    pub open spec fn views(&self) -> Seq<CollectionImplView> {
        self.handles@.map_values(|h: CollectionImpl| h@)
    }

    /// There is a handle for collection `uuid`.
    pub open spec fn has(&self, uuid: u128) -> bool {
        exists|k: int| 0 <= k < self.handles@.len() && #[trigger] self.handles@[k].uuid == uuid
    }

    /// Whether the handle of collection `uuid` is that of the default collection.
    pub open spec fn default_of(&self, uuid: u128) -> bool {
        self.handles@[choose|k: int| 0 <= k < self.handles@.len() && #[trigger] self.handles@[k].uuid == uuid].default
    }

    pub proof fn lemma_default_of(&self, k: int)
        requires
            self.wf(),
            0 <= k < self.handles@.len(),
        ensures
            self.default_of(self.handles@[k].uuid) == self.handles@[k].default,
    {
        let u = self.handles@[k].uuid;
        let c = choose|c: int| 0 <= c < self.handles@.len() && #[trigger] self.handles@[c].uuid == u;
        assert(0 <= c < self.handles@.len() && self.handles@[c].uuid == u);
        if c != k {
            assert(self.handles@[c].uuid != self.handles@[k].uuid);
        }
    }

    /// One handle per collection, each with the paths of its collection.
    pub open spec fn wf(&self) -> bool {
        &&& forall|j: int, k: int| 0 <= j < self.handles@.len() && 0 <= k < self.handles@.len() && j != k
            ==> (#[trigger] self.handles@[j]).uuid != (#[trigger] self.handles@[k]).uuid
        &&& forall|k: int| 0 <= k < self.handles@.len() ==> texts((#[trigger] self.handles@[k]).paths@)
            == handle_paths(self.handles@[k].uuid, self.handles@[k].default)
    }

    pub fn new() -> (r: CollectionHandles)
        ensures
            r.handles@.len() == 0,
            r.wf(),
    {
        CollectionHandles { handles: Vec::new() }
    }

    fn position(&self, uuid: u128) -> (r: Option<usize>)
        ensures
            r matches Some(k) ==> k < self.handles@.len() && self.handles@[k as int].uuid == uuid,
            r is None ==> !self.has(uuid),
    {
        let mut k: usize = 0;
        while k < self.handles.len()
            invariant
                k <= self.handles@.len(),
                forall|m: int| 0 <= m < k ==> self.handles@[m].uuid != uuid,
            decreases self.handles@.len() - k,
        {
            if self.handles[k].uuid == uuid {
                return Some(k);
            }
            k = k + 1;
        }
        None
    }

    /// The handle of collection `uuid`, made (as the default collection's handle when
    /// `default` is set) when there is none yet. The flag tells whether it was made, in
    /// which case it still has to be published.
    pub fn get_or_insert(&mut self, uuid: u128, default: bool) -> (r: (CollectionImpl, bool))
        requires
            old(self).wf(),
        ensures
            final(self).wf(),
            final(self).has(uuid),
            r.0.uuid == uuid,
            texts(r.0.paths@) == handle_paths(uuid, r.0.default),
            old(self).has(uuid) ==> !r.1 && final(self).views() == old(self).views()
                && exists|k: int| 0 <= k < old(self).handles@.len() && #[trigger] old(self).handles@[k].uuid == uuid
                    && old(self).handles@[k]@ == r.0@,
            !old(self).has(uuid) ==> r.1 && r.0.default == default && final(self).views() == old(self).views().push(r.0@),
            r.0.default == final(self).default_of(uuid),
            forall|u: u128| #[trigger] old(self).has(u) ==> final(self).has(u) && final(self).default_of(u) == old(self).default_of(u),
            forall|u: u128| #[trigger] final(self).has(u) ==> old(self).has(u) || u == uuid,
    {
        match self.position(uuid) {
            Some(k) => {
                proof { self.lemma_default_of(k as int); }
                (self.handles[k].clone(), false)
            },
            None => {
                let h = CollectionImpl::new(uuid, default);
                let copy = h.clone();
                let ghost before = self.handles@;
                self.handles.push(h);
                proof {
                    assert(self.views() =~= old(self).views().push(copy@));
                    assert(self.handles@[before.len() as int].uuid == uuid);
                    assert forall|j: int, k: int| 0 <= j < self.handles@.len() && 0 <= k < self.handles@.len() && j != k
                        implies (#[trigger] self.handles@[j]).uuid != (#[trigger] self.handles@[k]).uuid by {
                        if j < before.len() && k < before.len() {
                            assert(before[j].uuid != before[k].uuid);
                        } else if j < before.len() {
                            assert(before[j].uuid != uuid);
                        } else {
                            assert(before[k].uuid != uuid);
                        }
                    }
                    self.lemma_default_of(before.len() as int);
                    assert forall|u: u128| #[trigger] self.has(u) implies old(self).has(u) || u == uuid by {
                        let k = choose|k: int| 0 <= k < self.handles@.len() && #[trigger] self.handles@[k].uuid == u;
                        if k < before.len() {
                            assert(before[k].uuid == u);
                        }
                    }
                    assert forall|u: u128| #[trigger] old(self).has(u) implies self.has(u) && self.default_of(u) == old(
                        self,
                    ).default_of(u) by {
                        let k = choose|k: int| 0 <= k < before.len() && #[trigger] before[k].uuid == u;
                        old(self).lemma_default_of(k);
                        assert(self.handles@[k] == before[k]);
                        self.lemma_default_of(k);
                    }
                }
                (copy, true)
            },
        }
    }

    /// The first handle published under path `p`, or the placeholder handle.
    pub fn find_by_path(&self, p: &str) -> (r: CollectionImpl)
        ensures
            (exists|k: int| 0 <= k < self.handles@.len() && texts((#[trigger] self.handles@[k]).paths@).contains(p@)) ==> exists|k: int|
                0 <= k < self.handles@.len() && #[trigger] self.handles@[k]@ == r@ && texts(r.paths@).contains(p@)
                    && forall|m: int| 0 <= m < k ==> !texts(self.handles@[m].paths@).contains(p@),
            (forall|k: int| 0 <= k < self.handles@.len() ==> !texts((#[trigger] self.handles@[k]).paths@).contains(p@)) ==> r.uuid
                == 0 && !r.default && r.paths@.len() == 0,
            r.uuid == path_owner(self.handles@, p@),
    {
        let mut k: usize = 0;
        while k < self.handles.len()
            invariant
                k <= self.handles@.len(),
                forall|m: int| 0 <= m < k ==> !texts(self.handles@[m].paths@).contains(p@),
            decreases self.handles@.len() - k,
        {
            let paths = &self.handles[k].paths;
            let mut i: usize = 0;
            while i < paths.len()
                invariant
                    k < self.handles@.len(),
                    paths == self.handles@[k as int].paths,
                    forall|m: int| 0 <= m < k ==> !texts(self.handles@[m].paths@).contains(p@),
                    i <= paths@.len(),
                    forall|m: int| 0 <= m < i ==> paths@[m]@ != p@,
                decreases paths@.len() - i,
            {
                if same_text(paths[i].as_str(), p) {
                    assert(texts(paths@)[i as int] == p@);
                    proof { lemma_path_owner(self.handles@, p@, k as int); }
                    return self.handles[k].clone();
                }
                i = i + 1;
            }
            assert forall|m: int| 0 <= m < paths@.len() implies #[trigger] texts(paths@)[m] != p@ by {
                assert(texts(paths@)[m] == paths@[m]@);
            }
            k = k + 1;
        }
        proof {
            assert forall|c: int| !is_first_holder(self.handles@, p@, c) by {
                if 0 <= c < self.handles@.len() {
                    assert(!texts(self.handles@[c].paths@).contains(p@));
                }
            }
        }
        CollectionImpl::default()
    }

    /// Copies of all handles.
    pub fn collections(&self) -> (r: Vec<CollectionImpl>)
        ensures
            r@.map_values(|h: CollectionImpl| h@) == self.views(),
    {
        let mut r: Vec<CollectionImpl> = Vec::new();
        let mut k: usize = 0;
        while k < self.handles.len()
            invariant
                k <= self.handles@.len(),
                r@.len() == k,
                forall|m: int| 0 <= m < k ==> #[trigger] r@[m]@ == self.handles@[m]@,
            decreases self.handles@.len() - k,
        {
            r.push(self.handles[k].clone());
            k = k + 1;
        }
        assert(r@.map_values(|h: CollectionImpl| h@) =~= self.views());
        r
    }
}

impl CollectionImpl {
    /// The handle of collection `c`, made when there is none yet (the flag tells).
    pub fn from_collection(handles: &mut CollectionHandles, c: &Collection) -> (r: (CollectionImpl, bool))
        requires
            old(handles).wf(),
        ensures
            final(handles).wf(),
            r.0.uuid == c.uuid,
            texts(r.0.paths@) == handle_paths(c.uuid, r.0.default),
            !old(handles).has(c.uuid) ==> r.1 && r.0.default == c.default,
            old(handles).has(c.uuid) ==> !r.1 && final(handles).views() == old(handles).views(),
            final(handles).has(c.uuid),
            r.0.default == final(handles).default_of(c.uuid),
            forall|u: u128| #[trigger] old(handles).has(u) ==> final(handles).has(u) && final(handles).default_of(u)
                == old(handles).default_of(u),
            forall|u: u128| #[trigger] final(handles).has(u) ==> old(handles).has(u) || u == c.uuid,
    {
        handles.get_or_insert(c.uuid, c.default)
    }

    /// The handle of collection `uuid`, made (as a non-default collection's) when there is
    /// none yet (the flag tells).
    pub fn from_uuid(handles: &mut CollectionHandles, uuid: u128) -> (r: (CollectionImpl, bool))
        requires
            old(handles).wf(),
        ensures
            final(handles).wf(),
            r.0.uuid == uuid,
            texts(r.0.paths@) == handle_paths(uuid, r.0.default),
            !old(handles).has(uuid) ==> r.1 && !r.0.default,
            old(handles).has(uuid) ==> !r.1 && final(handles).views() == old(handles).views(),
            final(handles).has(uuid),
            r.0.default == final(handles).default_of(uuid),
            forall|u: u128| #[trigger] old(handles).has(u) ==> final(handles).has(u) && final(handles).default_of(u)
                == old(handles).default_of(u),
    {
        handles.get_or_insert(uuid, false)
    }
}

/// `r` holds, for each of `ids`, the path of the handle of that item in `handles`.
pub open spec fn paths_of_handles(handles: &ItemHandles, ids: Seq<ItemId>, r: Seq<Seq<char>>) -> bool {
    &&& r.len() == ids.len()
    &&& forall|k: int| #![trigger ids[k]] 0 <= k < ids.len() ==> handles.has(ids[k].uuid) && r[k] == handles.path_of(ids[k].uuid)
}

/// The paths of the handles of the items `ids`, made where there are none yet.
pub fn item_paths_of(handles: &mut ItemHandles, ids: &Vec<ItemId>) -> (r: Vec<String>)
    requires
        old(handles).wf(),
    ensures
        final(handles).wf(),
        old(handles).handles@.is_prefix_of(final(handles).handles@),
        paths_of_handles(final(handles), ids@, texts(r@)),
        forall|u: u128| #[trigger] old(handles).has(u) ==> final(handles).has(u) && final(handles).path_of(u) == old(
            handles,
        ).path_of(u),
{
    let mut r: Vec<String> = Vec::new();
    let mut k: usize = 0;
    while k < ids.len()
        invariant
            k <= ids@.len(),
            r@.len() == k,
            handles.wf(),
            old(handles).handles@.is_prefix_of(handles.handles@),
            forall|m: int| #![trigger ids@[m]] 0 <= m < k ==> handles.has(ids@[m].uuid),
            forall|m: int| #![trigger r@[m]] 0 <= m < k ==> r@[m]@ == handles.path_of(ids@[m].uuid),
            forall|u: u128| #[trigger] old(handles).has(u) ==> handles.has(u) && handles.path_of(u) == old(handles).path_of(u),
        decreases ids@.len() - k,
    {
        let ghost before = *handles;
        let (h, _) = handles.get_or_insert(&ids[k]);
        proof {
            assert(old(handles).handles@.is_prefix_of(handles.handles@)) by {
                assert forall|m: int| 0 <= m < old(handles).handles@.len() implies old(handles).handles@[m] == handles.handles@[m] by {
                    assert(before.handles@[m] == handles.handles@[m]);
                }
            }
            assert forall|u: u128| #[trigger] old(handles).has(u) implies handles.has(u) && handles.path_of(u) == old(
                handles,
            ).path_of(u) by {
                assert(before.has(u));
            }
            assert forall|m: int| #![trigger r@[m]] 0 <= m < k implies handles.has(ids@[m].uuid) && r@[m]@ == handles.path_of(ids@[m].uuid) by {
                assert(r@[m]@ == before.path_of(ids@[m].uuid));
                assert(before.has(ids@[m].uuid));
            }
        }
        let ghost prev = r@;
        let ghost hp = h.path@;
        assert(hp == handles.path_of(ids@[k as int].uuid));
        r.push(h.path);
        proof {
            assert forall|m: int| #![trigger r@[m]] 0 <= m < k + 1 implies handles.has(ids@[m].uuid) && r@[m]@
                == handles.path_of(ids@[m].uuid) by {
                if m < k {
                    assert(r@[m] == prev[m]);
                    assert(prev[m]@ == handles.path_of(ids@[m].uuid));
                } else {
                    assert(r@[m]@ == hp);
                }
            }
        }
        k = k + 1;
    }
    assert forall|m: int| #![trigger ids@[m]] 0 <= m < ids@.len() implies handles.has(ids@[m].uuid) && texts(r@)[m]
        == handles.path_of(ids@[m].uuid) by {
        assert(texts(r@)[m] == r@[m]@);
    }
    r
}

impl CollectionImpl {
    /// Deleting a collection is not offered.
    pub fn delete(&mut self) -> (r: Result<String, String>)
        ensures
            fails_with(r, "Not implemented"@),
    {
        Err(from_literal("Not implemented"))
    }

    /// The collection's label: its name.
    pub fn label(&self, storage: &Storage) -> (r: Result<String, String>)
        ensures
            match collection_index(storage.collections@, self.uuid) {
                None => fails_with(r, "IO error: "@ + collection_not_found_message(self.uuid)),
                Some(j) => r matches Ok(n) && n@ == storage.collections@[j].name@,
            },
    {
        match storage.collection_position(self.uuid) {
            Some(j) => Ok(storage.collections[j].name.clone()),
            None => Err(crate::storage::collection_not_found(self.uuid).to_string()),
        }
    }

    /// Whether the collection is locked.
    pub fn locked(&self, storage: &Storage) -> (r: Result<bool, String>)
        ensures
            match collection_index(storage.collections@, self.uuid) {
                None => fails_with(r, "IO error: "@ + collection_not_found_message(self.uuid)),
                Some(j) => r == Ok::<bool, String>(storage.collections@[j].locked),
            },
    {
        match storage.collection_position(self.uuid) {
            Some(j) => Ok(storage.collections[j].locked),
            None => Err(crate::storage::collection_not_found(self.uuid).to_string()),
        }
    }

    /// When the collection was created (seconds since the Unix epoch).
    pub fn created(&self, storage: &Storage) -> (r: Result<u64, String>)
        ensures
            match collection_index(storage.collections@, self.uuid) {
                None => fails_with(r, "IO error: "@ + collection_not_found_message(self.uuid)),
                Some(j) => r == Ok::<u64, String>(storage.collections@[j].created),
            },
    {
        match storage.collection_position(self.uuid) {
            Some(j) => Ok(storage.collections[j].created),
            None => Err(crate::storage::collection_not_found(self.uuid).to_string()),
        }
    }

    /// When the collection was last modified (seconds since the Unix epoch).
    pub fn modified(&self, storage: &Storage) -> (r: Result<u64, String>)
        ensures
            match collection_index(storage.collections@, self.uuid) {
                None => fails_with(r, "IO error: "@ + collection_not_found_message(self.uuid)),
                Some(j) => r == Ok::<u64, String>(storage.collections@[j].modified),
            },
    {
        match storage.collection_position(self.uuid) {
            Some(j) => Ok(storage.collections[j].modified),
            None => Err(crate::storage::collection_not_found(self.uuid).to_string()),
        }
    }

    /// Renames the collection at time `ts`.
    pub fn set_label(&self, storage: &mut Storage, value: String, ts: u64) -> (r: Result<(), String>)
        ensures
            final(storage).backend == old(storage).backend,
            match collection_index(old(storage).collections@, self.uuid) {
                None => fails_with(r, "Not found"@) && *final(storage) == *old(storage),
                Some(j) => {
                    let o = old(storage).collections@[j];
                    let n = final(storage).collections@[j];
                    &&& r is Ok
                    &&& final(storage).collections@.len() == old(storage).collections@.len()
                    &&& forall|m: int| 0 <= m < old(storage).collections@.len() && m != j ==> final(storage).collections@[m]
                        == old(storage).collections@[m]
                    &&& n.name@ == value@ && n.modified == ts && n.items == o.items && n.uuid == o.uuid
                    &&& n.aliases == o.aliases && n.locked == o.locked && n.default == o.default
                    &&& n.created == o.created && n.path == o.path && n.items_path == o.items_path
                    &&& n.schema_version == o.schema_version
                },
            },
    {
        match storage.collection_position(self.uuid) {
            Some(j) => {
                storage.collections[j].name = value;
                storage.collections[j].modified = ts;
                Ok(())
            },
            None => Err(TksError::NotFound(None).to_string()),
        }
    }

    /// The paths of the collection's items, whose handles are made where there are none yet.
    pub fn items(&self, storage: &Storage, handles: &mut ItemHandles) -> (r: Result<Vec<String>, String>)
        requires
            old(handles).wf(),
        ensures
            final(handles).wf(),
            old(handles).handles@.is_prefix_of(final(handles).handles@),
            match collection_index(storage.collections@, self.uuid) {
                None => fails_with(r, "IO error: "@ + collection_not_found_message(self.uuid)),
                Some(j) => r matches Ok(v) && paths_of_handles(
                    final(handles),
                    storage.collections@[j].items@.map_values(|i: Item| i.id),
                    texts(v@),
                ),
            },
    {
        match storage.collection_position(self.uuid) {
            Some(j) => {
                let c = &storage.collections[j];
                let mut ids: Vec<ItemId> = Vec::new();
                let mut k: usize = 0;
                while k < c.items.len()
                    invariant
                        k <= c.items@.len(),
                        ids@ == c.items@.take(k as int).map_values(|i: Item| i.id),
                    decreases c.items@.len() - k,
                {
                    ids.push(c.items[k].id);
                    k = k + 1;
                    assert(ids@ =~= c.items@.take(k as int).map_values(|i: Item| i.id));
                }
                assert(c.items@.take(c.items@.len() as int) =~= c.items@);
                Ok(item_paths_of(handles, &ids))
            },
            None => Err(crate::storage::collection_not_found(self.uuid).to_string()),
        }
    }

    /// The paths of the collection's items whose attributes are exactly `attributes`;
    /// their handles are made where there are none yet.
    pub fn search_items(&self, storage: &Storage, handles: &mut ItemHandles, attributes: &Attributes) -> (r: Result<
        Vec<String>,
        String,
    >)
        requires
            old(handles).wf(),
        ensures
            final(handles).wf(),
            old(handles).handles@.is_prefix_of(final(handles).handles@),
            match collection_index(storage.collections@, self.uuid) {
                None => fails_with(r, "IO error: "@ + collection_not_found_message(self.uuid)),
                Some(j) => r matches Ok(v) && paths_of_handles(
                    final(handles),
                    storage.collections@[j].items_view().filter(|i: crate::storage::collection::ItemView| i.attributes == attributes@).map_values(
                        |i: crate::storage::collection::ItemView| i.id,
                    ),
                    texts(v@),
                ),
            },
    {
        match storage.collection_position(self.uuid) {
            Some(j) => {
                let ids = storage.collections[j].items_with_attributes(attributes);
                Ok(item_paths_of(handles, &ids))
            },
            None => Err(crate::storage::collection_not_found(self.uuid).to_string()),
        }
    }
}

/// What storing a new item gives, `r`, and how the collections go from `old` to `new` and
/// the item handles to `handles`: see [`CollectionImpl::store_new_item`].
pub open spec fn item_stored(
    old: Seq<Collection>,
    new: Seq<Collection>,
    handles: &ItemHandles,
    sessions: &SessionManager,
    collection_uuid: u128,
    secret: (String, Vec<u8>, Vec<u8>, String),
    replace: bool,
    label: Seq<char>,
    attributes: Map<Seq<char>, Seq<char>>,
    session_id: usize,
    ts: u64,
    r: Result<(String, String), TksError>,
) -> bool {
    if !sessions.table().dom().contains(session_id) {
        &&& r matches Err(TksError::IOError(m)) && m@ == "Session "@ + decimal(session_id as nat) + " not found"@
        &&& new == old
    } else {
        match collection_index(old, collection_uuid) {
            None => {
                &&& r matches Err(TksError::IOError(m)) && m@ == collection_not_found_message(collection_uuid)
                &&& new == old
            },
            Some(j) => {
                let s = sessions.table()[session_id];
                let o = old[j];
                let n = new[j];
                &&& new.len() == old.len()
                &&& forall|m: int| 0 <= m < old.len() && m != j ==> new[m] == old[m]
                &&& if o.locked {
                    r == Err::<(String, String), TksError>(TksError::PermissionDenied) && n == o
                } else {
                    match s.decrypted(secret.1@, secret.2@) {
                        None => r == Err::<(String, String), TksError>(TksError::CryptoError) && n == o,
                        Some(data) => {
                            &&& (r is Ok <==> (replace || !has_duplicate(o.items_view(), attributes, data, secret.3@)))
                            &&& match r {
                                Ok((path, prompt)) => prompt@ == "/"@ && exists|id: ItemId|
                                    #![trigger handles.path_of(id.uuid)]
                                    handles.has(id.uuid) && path@ == handles.path_of(id.uuid) && item_added(
                                        &n,
                                        &o,
                                        label,
                                        attributes,
                                        id,
                                        data,
                                        secret.3@,
                                        replace,
                                        ts,
                                    ),
                                Err(e) => e == TksError::Duplicate && n == o,
                            }
                        },
                    }
                }
            },
        }
    }
}

/// The reply to a request to create an item.
pub enum CreateItemReply {
    /// The path of the new item, and `/` as no prompt is needed.
    Created(String, String),
    /// The collection is locked: the user is to be asked, with this action, to unlock it;
    /// the item is created once the user confirms.
    UnlockFirst(PromptAction),
}

/// The question asked before unlocking collection `uuid` to store a new item in it.
pub open spec fn unlock_question(uuid: u128) -> Seq<char> {
    "Unlock collection '"@ + uuid_text(uuid) + "'?"@
}

/// `a` asks the user whether to unlock collection `uuid` and, when the user confirms,
/// creates the item that the request (`secret`, `replace`, `label`, `attributes`, sent in
/// session `session_id`) describes. The dialog has a "Yes" button and the default cancel
/// button (an empty text).
pub open spec fn unlock_to_create(
    a: PromptAction,
    uuid: u128,
    secret: (String, Vec<u8>, Vec<u8>, String),
    replace: bool,
    label: Seq<char>,
    attributes: Map<Seq<char>, Seq<char>>,
    session_id: usize,
) -> bool {
    &&& a.dialog matches PromptDialog::ConfirmationMessage(yes, no, q, ConfirmationMessageActionParam::CreateItem(p), act)
    &&& yes@ == "Yes"@ && no@.len() == 0 && q@ == unlock_question(uuid)
    &&& act == ConfirmationAction::UnlockAndCreateItem
    &&& p.collection_uuid == uuid && p.session_path@ == secret.0@ && p.iv@ == secret.1@ && p.value@ == secret.2@
    &&& p.content_type@ == secret.3@ && p.replace == replace && p.label@ == label && p.attributes@ == attributes
    &&& p.session_id == session_id
}

impl CollectionImpl {
    /// Adds an item labelled `item_label` with `item_attributes` to collection
    /// `collection_uuid` at time `ts`, holding the secret the client sent in session
    /// `session_id` (`secret` holds its IV, encrypted value and content type after the
    /// session path). An item holding the same secret under the same attributes is replaced
    /// when `replace` is set. Returns the path of the item's handle (made when there is
    /// none yet) and `/`.
    pub fn store_new_item(
        storage: &mut Storage,
        sessions: &SessionManager,
        handles: &mut ItemHandles,
        collection_uuid: u128,
        secret: (String, Vec<u8>, Vec<u8>, String),
        replace: bool,
        item_label: String,
        item_attributes: Attributes,
        session_id: usize,
        ts: u64,
    ) -> (r: Result<(String, String), TksError>)
        requires
            sessions.wf(),
            old(handles).wf(),
            secret.1@.len() <= c_int_max(),
            secret.2@.len() <= c_int_max(),
        ensures
            final(storage).backend == old(storage).backend,
            final(handles).wf(),
            old(handles).handles@.is_prefix_of(final(handles).handles@),
            item_stored(
                old(storage).collections@,
                final(storage).collections@,
                final(handles),
                sessions,
                collection_uuid,
                secret,
                replace,
                item_label@,
                item_attributes@,
                session_id,
                ts,
                r,
            ),
    {
        let s = match sessions.get_session(session_id) {
            Some(s) => s,
            None => {
                let m = from_literal("Session ").concat(usize_to_decimal(session_id).as_str()).concat(" not found");
                return Err(TksError::IOError(m));
            },
        };
        proof { assert(sessions.table().dom().contains(session_id)); }
        let j = match storage.collection_position(collection_uuid) {
            Some(j) => j,
            None => return Err(crate::storage::collection_not_found(collection_uuid)),
        };
        let ghost attrs = item_attributes@;
        let (_, iv, value, content_type) = secret;
        let id = match storage.collections[j].create_item(
            item_label.as_str(),
            item_attributes,
            (s, iv, value, content_type),
            replace,
            ts,
        ) {
            Ok(id) => id,
            Err(e) => {
                assert(storage.collections@ =~= old(storage).collections@);
                return Err(e);
            },
        };
        let h = ItemImpl::from_item_id(handles, &id);
        Ok((h.path, from_literal("/")))
    }

    /// A client's request to create an item in this collection: `label` is the label
    /// property (`None` when missing, `Some(None)` when not a string), `attributes` the
    /// attributes property (`None` when missing), `secret` the session path, IV, encrypted
    /// value and content type.
    pub fn create_item(
        &self,
        storage: &mut Storage,
        sessions: &SessionManager,
        handles: &mut ItemHandles,
        label: Option<Option<String>>,
        attributes: Option<Attributes>,
        secret: (String, Vec<u8>, Vec<u8>, String),
        replace: bool,
        ts: u64,
    ) -> (r: Result<CreateItemReply, String>)
        requires
            sessions.wf(),
            old(handles).wf(),
            secret.1@.len() <= c_int_max(),
            secret.2@.len() <= c_int_max(),
        ensures
            final(storage).backend == old(storage).backend,
            final(handles).wf(),
            old(handles).handles@.is_prefix_of(final(handles).handles@),
            label is None ==> fails_with(r, "No label specified"@) && *final(storage) == *old(storage),
            label == Some(None::<String>) ==> fails_with(r, "Label is not a string"@) && *final(storage) == *old(storage),
            label matches Some(Some(l)) ==> match attributes {
                None => fails_with(r, "Error creating item: "@ + "No attributes specified"@) && *final(storage)
                    == *old(storage),
                Some(a) => match trailing_number(secret.0@) {
                    None => fails_with(r, "Invalid session ID"@) && *final(storage) == *old(storage),
                    Some(session_id) => match collection_index(old(storage).collections@, self.uuid) {
                        None => fails_with(r, "Not found"@) && *final(storage) == *old(storage),
                        Some(j) => if old(storage).collections@[j].locked {
                            r matches Ok(CreateItemReply::UnlockFirst(act)) && unlock_to_create(
                                act,
                                self.uuid,
                                secret,
                                replace,
                                l@,
                                a@,
                                session_id,
                            ) && *final(storage) == *old(storage)
                        } else {
                            exists|res: Result<(String, String), TksError>|
                                item_stored(
                                    old(storage).collections@,
                                    final(storage).collections@,
                                    final(handles),
                                    sessions,
                                    self.uuid,
                                    secret,
                                    replace,
                                    l@,
                                    a@,
                                    session_id,
                                    ts,
                                    res,
                                ) && match res {
                                    Ok((p, q)) => r matches Ok(CreateItemReply::Created(p2, q2)) && p2@ == p@ && q2@ == q@,
                                    Err(e) => fails_with(r, e.description()),
                                }
                        },
                    },
                },
            },
    {
        let item_label = match label {
            None => return Err(from_literal("No label specified")),
            Some(None) => return Err(from_literal("Label is not a string")),
            Some(Some(l)) => l,
        };
        let item_attributes = match attributes {
            None => return Err(from_literal("Error creating item: ").concat("No attributes specified")),
            Some(a) => a,
        };
        let session_id = match trailing_number_of(secret.0.as_str()) {
            Some(id) => id,
            None => return Err(from_literal("Invalid session ID")),
        };
        match self.locked(storage) {
            Ok(true) => {
                let question = from_literal("Unlock collection '").concat(uuid_to_string(self.uuid).as_str()).concat("'?");
                let (session_path, iv, value, content_type) = secret;
                let pending = PendingItem {
                    collection_uuid: self.uuid,
                    session_path,
                    iv,
                    value,
                    content_type,
                    replace,
                    label: item_label,
                    attributes: item_attributes,
                    session_id,
                };
                return Ok(CreateItemReply::UnlockFirst(PromptAction {
                    dialog: PromptDialog::ConfirmationMessage(
                        from_literal("Yes"),
                        String::new(),
                        question,
                        ConfirmationMessageActionParam::CreateItem(pending),
                        ConfirmationAction::UnlockAndCreateItem,
                    ),
                }));
            },
            Ok(false) => {},
            Err(_) => return Err(from_literal("Not found")),
        }
        let ghost l = item_label@;
        let ghost a = item_attributes@;
        let ghost sc = secret;
        let res = CollectionImpl::store_new_item(
            storage,
            sessions,
            handles,
            self.uuid,
            secret,
            replace,
            item_label,
            item_attributes,
            session_id,
            ts,
        );
        match res {
            Ok((p, q)) => Ok(CreateItemReply::Created(p, q)),
            Err(e) => Err(e.to_string()),
        }
    }

    /// Creates, at time `ts`, the item of a request that waited for its collection to be
    /// unlocked (see [`CreateItemReply::UnlockFirst`]), as [`CollectionImpl::store_new_item`]
    /// does.
    pub fn create_pending_item(
        storage: &mut Storage,
        sessions: &SessionManager,
        handles: &mut ItemHandles,
        pending: PendingItem,
        ts: u64,
    ) -> (r: Result<(String, String), TksError>)
        requires
            sessions.wf(),
            old(handles).wf(),
            pending.iv@.len() <= c_int_max(),
            pending.value@.len() <= c_int_max(),
        ensures
            final(storage).backend == old(storage).backend,
            final(handles).wf(),
            old(handles).handles@.is_prefix_of(final(handles).handles@),
            item_stored(
                old(storage).collections@,
                final(storage).collections@,
                final(handles),
                sessions,
                pending.collection_uuid,
                (pending.session_path, pending.iv, pending.value, pending.content_type),
                pending.replace,
                pending.label@,
                pending.attributes@,
                pending.session_id,
                ts,
                r,
            ),
    {
        CollectionImpl::store_new_item(
            storage,
            sessions,
            handles,
            pending.collection_uuid,
            (pending.session_path, pending.iv, pending.value, pending.content_type),
            pending.replace,
            pending.label,
            pending.attributes,
            pending.session_id,
            ts,
        )
    }

    /// Unlocks this (locked) collection with the content `payload` of its items file;
    /// how the unlocking went is not reported. Returns `/`, as no prompt is needed.
    pub fn unlock(&self, storage: &mut Storage, payload: &ItemsPayload) -> (r: Result<String, TksError>)
        requires
            collection_index(old(storage).collections@, self.uuid) matches Some(j) ==> old(storage).collections@[j].locked,
        ensures
            final(storage).backend == old(storage).backend,
            match collection_index(old(storage).collections@, self.uuid) {
                None => (r matches Err(TksError::IOError(m)) && m@ == collection_not_found_message(self.uuid))
                    && *final(storage) == *old(storage),
                Some(j) => {
                    &&& r matches Ok(p) && p@ == "/"@
                    &&& final(storage).collections@.len() == old(storage).collections@.len()
                    &&& forall|m: int| 0 <= m < old(storage).collections@.len() && m != j ==> final(storage).collections@[m]
                        == old(storage).collections@[m]
                    &&& exists|res: Result<(), TksError>| unlock_outcome(
                        old(storage).collections@[j],
                        final(storage).collections@[j],
                        *payload,
                        res,
                    )
                },
            },
    {
        match storage.collection_position(self.uuid) {
            Some(j) => {
                let res = storage.collections[j].unlock(payload);
                assert(unlock_outcome(old(storage).collections@[j as int], storage.collections@[j as int], *payload, res));
                Ok(from_literal("/"))
            },
            None => Err(crate::storage::collection_not_found(self.uuid)),
        }
    }
}

} // verus!
