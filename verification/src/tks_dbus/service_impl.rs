//! The service object: sessions, collections, searching, locking and unlocking, and the
//! aliases of collections.

use vstd::prelude::*;
use crate::crypto::c_int_max;
use crate::error::TksError;
use crate::storage::attributes::Attributes;
use crate::storage::collection::{default_name, Collection};
use crate::storage::{alias_position, collection_index, is_first_collection, item_location, named_collections, search_ids, secrets_fit, texts, Storage};
use crate::text::{from_literal, joined, join_texts, same_text, split_on, split_segments};
use crate::tks_dbus::collection_impl::{
    handle_paths, item_paths_of, path_owner, paths_of_handles, CollectionHandles, CollectionImpl,
};
use crate::tks_dbus::item_impl::{fails_with, secret_reply, ItemHandles, ItemImpl};
use crate::tks_dbus::session_impl::{dh_aes_algorithm, plain_algorithm, SessionManager, SESSION_KEY_LEN};
use crate::tks_dbus::{
    collection_path, make_collection_path, numbered_path, sanitize_string, sanitized, service_path, session_path, DBusHandle,
    DBusHandlePath, PathsView,
};

verus! {

/// The D-Bus object of the service.
pub struct ServiceHandle {}

impl DBusHandle for ServiceHandle {
    open spec fn handle_path(&self) -> PathsView {
        PathsView::Single(service_path())
    }

    fn path(&self) -> (r: DBusHandlePath) {
        DBusHandlePath::SinglePath(from_literal("/org/freedesktop/secrets"))
    }
}

/// The service.
pub struct ServiceImpl {}

/// The name of the property that holds the label of a new collection.
pub open spec fn collection_label_property() -> Seq<char> {
    "org.freedesktop.Secret.Collection.Label"@
}

/// The error text for a property of a new collection that is not a string.
pub open spec fn not_a_string(name: Seq<char>) -> Seq<char> {
    "Property "@ + name + " should be a string"@
}

/// The error texts for the label properties that are not strings, in order; every other
/// property is ignored.
pub open spec fn property_errors(props: Seq<(String, Option<String>)>) -> Seq<Seq<char>>
    decreases props.len(),
{
    if props.len() == 0 {
        Seq::empty()
    } else {
        property_errors(props.drop_last()) + if props.last().1 is None && props.last().0@ == collection_label_property() {
            seq![not_a_string(props.last().0@)]
        } else {
            Seq::empty()
        }
    }
}

/// The properties as strings, a later one replacing an earlier one of the same name.
pub open spec fn string_properties(props: Seq<(String, Option<String>)>) -> Map<Seq<char>, Seq<char>>
    decreases props.len(),
{
    if props.len() == 0 {
        Map::empty()
    } else {
        string_properties(props.drop_last()).insert(
            props.last().0@,
            match props.last().1 {
                Some(v) => v@,
                None => Seq::empty(),
            },
        )
    }
}

/// The path of the collection an object path belongs to: its first six elements.
pub open spec fn owning_collection_path(p: Seq<char>) -> Seq<char> {
    joined(split_on(p, '/').take(6), "/"@)
}

/// The paths of the handles of the collections `locked` (ids with default flags), in order.
pub open spec fn lock_paths(locked: Seq<(u128, bool)>, handles: CollectionHandles) -> Seq<Seq<char>>
    decreases locked.len(),
{
    if locked.len() == 0 {
        Seq::empty()
    } else {
        lock_paths(locked.drop_last(), handles) + handle_paths(
            locked.last().0,
            handles.default_of(locked.last().0),
        )
    }
}

/// The item that a path names: a handle published under it, or the placeholder (nil ids).
pub open spec fn named_by(handles: &ItemHandles, p: Seq<char>, item: ItemImpl) -> bool {
    ||| exists|k: int| 0 <= k < handles.handles@.len() && #[trigger] handles.handles@[k].path@ == p
        && handles.handles@[k].item_id == item.item_id && item.path@ == p
    ||| (forall|k: int| 0 <= k < handles.handles@.len() ==> (#[trigger] handles.handles@[k]).path@ != p)
        && item.item_id.uuid == 0 && item.item_id.collection_uuid == 0 && item.path@ == "/"@
}

/// `e` is the entry for the item at path `p` in a reply to a request for secrets: the path
/// of the item's handle and the item's secret.
pub open spec fn secret_entry(
    cols: Seq<Collection>,
    sessions: &SessionManager,
    handles: &ItemHandles,
    p: Seq<char>,
    session: Seq<char>,
    has_sender: bool,
    e: (String, (String, Vec<u8>, Vec<u8>, String)),
) -> bool {
    exists|item: ItemImpl|
        #![trigger named_by(handles, p, item)]
        named_by(handles, p, item) && e.0@ == item.path@ && secret_reply(cols, sessions, item.item_id, session, has_sender, Ok(e.1))
}

impl ServiceImpl {
    pub fn new() -> (r: ServiceImpl) {
        ServiceImpl {}
    }

    pub fn get_dbus_handle(&self) -> (r: ServiceHandle)
        ensures
            r.handle_path() == PathsView::Single(service_path()),
    {
        ServiceHandle {}
    }

    /// Makes the handles of all collections, so that they are published.
    pub fn register_collections(storage: &Storage, handles: &mut CollectionHandles) -> (r: Result<(), TksError>)
        requires
            old(handles).wf(),
        ensures
            r is Ok,
            final(handles).wf(),
            forall|j: int| 0 <= j < storage.collections@.len() ==> final(handles).has(#[trigger] storage.collections@[j].uuid),
            forall|u: u128| #[trigger] old(handles).has(u) ==> final(handles).has(u) && final(handles).default_of(u)
                == old(handles).default_of(u),
            forall|u: u128| #[trigger] final(handles).has(u) ==> old(handles).has(u) || collection_index(
                storage.collections@,
                u,
            ) is Some,
            forall|u: u128| #[trigger] collection_index(storage.collections@, u) matches Some(j) ==> (!old(handles).has(u)
                ==> final(handles).default_of(u) == storage.collections@[j].default),
    {
        let ghost cols = storage.collections@;
        let mut j: usize = 0;
        while j < storage.collections.len()
            invariant
                j <= storage.collections@.len(),
                cols == storage.collections@,
                handles.wf(),
                forall|m: int| 0 <= m < j ==> handles.has(#[trigger] cols[m].uuid),
                forall|u: u128| #[trigger] old(handles).has(u) ==> handles.has(u) && handles.default_of(u) == old(
                    handles,
                ).default_of(u),
                forall|u: u128| #[trigger] handles.has(u) ==> old(handles).has(u) || exists|m: int| 0 <= m < j
                    && #[trigger] cols[m].uuid == u,
                forall|m: int| 0 <= m < j && !old(handles).has(cols[m].uuid) && is_first_collection(cols, cols[m].uuid, m)
                    ==> handles.default_of(#[trigger] cols[m].uuid) == cols[m].default,
            decreases storage.collections@.len() - j,
        {
            let ghost before = *handles;
            let _ = CollectionImpl::from_collection(handles, &storage.collections[j]);
            proof {
                let c = cols[j as int];
                assert forall|m: int| 0 <= m < j + 1 implies handles.has(#[trigger] cols[m].uuid) by {
                    if m < j {
                        assert(before.has(cols[m].uuid));
                    }
                }
                assert forall|u: u128| #[trigger] handles.has(u) implies old(handles).has(u) || exists|m: int| 0 <= m < j + 1
                    && #[trigger] cols[m].uuid == u by {
                    if u == c.uuid {
                        assert(cols[j as int].uuid == u);
                    } else {
                        assert(before.has(u));
                    }
                }
                assert forall|m: int| 0 <= m < j + 1 && !old(handles).has(cols[m].uuid) && is_first_collection(
                    cols,
                    cols[m].uuid,
                    m,
                ) implies handles.default_of(#[trigger] cols[m].uuid) == cols[m].default by {
                    if m < j {
                        assert(before.has(cols[m].uuid));
                    } else {
                        if before.has(c.uuid) {
                            let w = choose|w: int| 0 <= w < j && #[trigger] cols[w].uuid == c.uuid;
                            assert(cols[w].uuid == c.uuid);
                        }
                    }
                }
            }
            j = j + 1;
        }
        proof {
            assert forall|u: u128| #[trigger] handles.has(u) implies old(handles).has(u) || collection_index(cols, u) is Some by {
                if !old(handles).has(u) {
                    let m = choose|m: int| 0 <= m < cols.len() && #[trigger] cols[m].uuid == u;
                    crate::storage::lemma_first_collection_exists(cols, u, m);
                }
            }
            assert forall|u: u128| #[trigger] collection_index(cols, u) is Some && !old(handles).has(u)
                implies handles.default_of(u) == cols[collection_index(cols, u)->0].default by {
                let x = choose|x: int| is_first_collection(cols, u, x);
                assert(is_first_collection(cols, u, x));
            }
        }
        Ok(())
    }

    /// Opens a session for `algorithm` with the client's key-agreement `input`. Returns the
    /// service's side of the key agreement (`None` for the plain algorithm) and the path of
    /// the new session.
    pub fn open_session(&mut self, sessions: &mut SessionManager, algorithm: String, input: Option<&Vec<u8>>) -> (r: Result<
        (Option<Vec<u8>>, String),
        String,
    >)
        requires
            old(sessions).next_session_id < usize::MAX,
            old(sessions).wf(),
            input matches Some(i) ==> i@.len() <= c_int_max(),
        ensures
            final(sessions).wf(),
            final(sessions).next_session_id == old(sessions).next_session_id + 1,
            r is Err ==> final(sessions).table() == old(sessions).table(),
            r matches Ok((out, path)) ==> {
                let id = old(sessions).next_session_id;
                &&& path@ == session_path(id as nat)
                &&& final(sessions).table() == old(sessions).table().insert(id, final(sessions).table()[id])
                &&& final(sessions).table()[id].algorithm@ == algorithm@
                &&& (algorithm@ == plain_algorithm() ==> out is None)
                &&& (algorithm@ == dh_aes_algorithm() ==> (out matches Some(pk) && pk@.len() <= 128) && (final(sessions).table()[id].key() matches Some(k)
                    && k.len() == SESSION_KEY_LEN && final(sessions).table()[id].agreed_key(k)))
            },
            algorithm@ == plain_algorithm() ==> (r is Ok <==> input is None),
            algorithm@ != plain_algorithm() && algorithm@ != dh_aes_algorithm() ==> fails_with(r, "Parameter error"@),
            algorithm@ == dh_aes_algorithm() && input is None ==> fails_with(r, "Parameter error"@),
            algorithm@ == dh_aes_algorithm() && input is Some && r is Err ==> fails_with(r, "Crypto error"@),
    {
        match sessions.new_session(algorithm, input) {
            Ok((id, out)) => {
                let handle = sessions.get_session(id).unwrap().get_dbus_handle();
                let path = handle.path().into_path();
                Ok((out, path))
            },
            Err(e) => Err(e.to_string()),
        }
    }

    /// Reads `alias`: the path of the collection that has it, or `/` when none has.
    pub fn read_alias(&mut self, storage: &mut Storage, name: String) -> (r: Result<String, String>)
        requires
            alias_position(old(storage).collections@, name@) matches Some(j) ==> old(storage).collections@[j].name@.len() > 0,
        ensures
            *final(storage) == *old(storage),
            match alias_position(old(storage).collections@, name@) {
                Some(j) => r matches Ok(p) && p@ == "/org/freedesktop/secrets/collection/"@ + sanitized(
                    old(storage).collections@[j].name@,
                ),
                None => r matches Ok(p) && p@ == "/"@,
            },
    {
        match storage.read_alias(name.as_str()) {
            Ok(n) => Ok(from_literal("/org/freedesktop/secrets/collection/").concat(sanitize_string(n.as_str()).as_str())),
            Err(_) => Ok(from_literal("/")),
        }
    }

    /// Setting an alias is not offered.
    pub fn set_alias(&mut self, name: String, collection: String) -> (r: Result<(), String>)
        ensures
            fails_with(r, "Error setting alias: "@ + "Not implemented"@),
    {
        Err(from_literal("Error setting alias: ").concat("Not implemented"))
    }

    /// The paths of the collections: the first path of each handle.
    pub fn collections(&self, handles: &CollectionHandles) -> (r: Result<Vec<String>, String>)
        requires
            handles.wf(),
        ensures
            r matches Ok(v) && v@.len() == handles.handles@.len() && forall|k: int| 0 <= k < v@.len() ==> (#[trigger] v@[k])@
                == texts(handles.handles@[k].paths@)[0],
    {
        let all = handles.collections();
        assert(all@.map_values(|h: CollectionImpl| h@).len() == all@.len());
        let mut r: Vec<String> = Vec::new();
        let mut k: usize = 0;
        while k < all.len()
            invariant
                k <= all@.len(),
                all@.len() == handles.handles@.len(),
                handles.wf(),
                all@.map_values(|h: CollectionImpl| h@) == handles.views(),
                r@.len() == k,
                forall|m: int| 0 <= m < k ==> (#[trigger] r@[m])@ == texts(handles.handles@[m].paths@)[0],
            decreases all@.len() - k,
        {
            proof {
                assert(all@.map_values(|h: CollectionImpl| h@)[k as int] == handles.views()[k as int]);
                let h = handles.handles@[k as int];
                assert(texts(h.paths@) == handle_paths(h.uuid, h.default));
                assert(texts(all@[k as int].paths@) == texts(h.paths@));
                assert(texts(all@[k as int].paths@).len() > 0);
            }
            let p = all[k].path().into_path();
            proof {
                assert(texts(all@[k as int].paths@)[0] == all@[k as int].paths@[0]@);
            }
            r.push(p);
            k = k + 1;
        }
        Ok(r)
    }
}

/// The objects to unlock: for each of `objects` (by position) whose collection is
/// published, the position and the collection's id, in order.
pub open spec fn unlock_plan(hs: Seq<CollectionImpl>, objects: Seq<Seq<char>>) -> Seq<(int, u128)>
    decreases objects.len(),
{
    if objects.len() == 0 {
        Seq::empty()
    } else {
        let u = path_owner(hs, owning_collection_path(objects.last()));
        unlock_plan(hs, objects.drop_last()) + if u != 0 {
            seq![((objects.len() - 1) as int, u)]
        } else {
            Seq::empty()
        }
    }
}

/// Law: every object whose collection is published is unlocked. When the first handle of
/// `hs` published under the collection path of the `k`-th object (its first six elements) is
/// `hs[h]`, a collection with a non-nil id, the plan holds `(k, hs[h].uuid)`.
pub proof fn lemma_unlock_plan_covers(hs: Seq<CollectionImpl>, objects: Seq<Seq<char>>, k: int, h: int)
    requires
        0 <= k < objects.len(),
        0 <= h < hs.len(),
        texts(hs[h].paths@).contains(owning_collection_path(objects[k])),
        forall|m: int| 0 <= m < h ==> !texts(hs[m].paths@).contains(owning_collection_path(objects[k])),
        hs[h].uuid != 0,
    ensures
        unlock_plan(hs, objects).contains((k, hs[h].uuid)),
    decreases objects.len(),
{
    let rest = objects.drop_last();
    let head = unlock_plan(hs, rest);
    let n = objects.len() - 1;
    let u = path_owner(hs, owning_collection_path(objects.last()));
    let tail = if u != 0 { seq![(n, u)] } else { Seq::<(int, u128)>::empty() };
    assert(unlock_plan(hs, objects) == head + tail);
    if k < n {
        assert(rest[k] == objects[k]);
        lemma_unlock_plan_covers(hs, rest, k, h);
        let m = choose|m: int| 0 <= m < head.len() && head[m] == (k, hs[h].uuid);
        assert((head + tail)[m] == head[m]);
    } else {
        crate::tks_dbus::collection_impl::lemma_path_owner(hs, owning_collection_path(objects[k]), h);
        assert((head + tail)[head.len() as int] == (k, hs[h].uuid));
    }
}

/// Law: the plan unlocks only objects whose collection is published. Its `m`-th entry names
/// an object position and the id of the first handle of `hs` published under that object's
/// collection path, a non-nil id.
pub proof fn lemma_unlock_plan_only_published(hs: Seq<CollectionImpl>, objects: Seq<Seq<char>>, m: int) -> (h: int)
    requires
        0 <= m < unlock_plan(hs, objects).len(),
    ensures
        0 <= unlock_plan(hs, objects)[m].0 < objects.len(),
        0 <= h < hs.len(),
        texts(hs[h].paths@).contains(owning_collection_path(objects[unlock_plan(hs, objects)[m].0])),
        forall|q: int| 0 <= q < h ==> !texts(hs[q].paths@).contains(owning_collection_path(objects[unlock_plan(hs, objects)[m].0])),
        unlock_plan(hs, objects)[m].1 == hs[h].uuid,
        hs[h].uuid != 0,
    decreases objects.len(),
{
    let rest = objects.drop_last();
    let head = unlock_plan(hs, rest);
    let n = objects.len() - 1;
    let p = owning_collection_path(objects.last());
    let u = path_owner(hs, p);
    let tail = if u != 0 { seq![(n, u)] } else { Seq::<(int, u128)>::empty() };
    assert(unlock_plan(hs, objects) == head + tail);
    if m < head.len() {
        let h = lemma_unlock_plan_only_published(hs, rest, m);
        assert(unlock_plan(hs, objects)[m] == head[m]);
        assert(rest[head[m].0] == objects[head[m].0]);
        h
    } else {
        assert(unlock_plan(hs, objects)[m] == (n, u));
        assert(exists|x: int| crate::tks_dbus::collection_impl::is_first_holder(hs, p, x));
        let h = choose|x: int| crate::tks_dbus::collection_impl::is_first_holder(hs, p, x);
        h
    }
}

/// The paths of the handles of `locked` do not change while the handles of their
/// collections keep their default flag.
proof fn lemma_lock_paths_stable(locked: Seq<(u128, bool)>, a: CollectionHandles, b: CollectionHandles)
    requires
        forall|k: int| 0 <= k < locked.len() ==> b.default_of(#[trigger] locked[k].0) == a.default_of(locked[k].0),
    ensures
        lock_paths(locked, a) == lock_paths(locked, b),
    decreases locked.len(),
{
    if locked.len() > 0 {
        let rest = locked.drop_last();
        assert forall|k: int| 0 <= k < rest.len() implies b.default_of(#[trigger] rest[k].0) == a.default_of(rest[k].0) by {
            assert(rest[k] == locked[k]);
        }
        lemma_lock_paths_stable(rest, a, b);
        assert(b.default_of(locked[locked.len() - 1].0) == a.default_of(locked[locked.len() - 1].0));
    }
}

impl ServiceImpl {
    /// Creates a collection at time `ts` from the client's `properties` (each with its
    /// value when it is a string) under `alias`. Every property but the label, which is
    /// required and must be a string, is ignored. The default collection always exists: asking
    /// for it gives its alias path. Returns the new collection's path and `/`, as no prompt
    /// is needed.
    pub fn create_collection(
        &mut self,
        storage: &mut Storage,
        handles: &mut CollectionHandles,
        properties: &Vec<(String, Option<String>)>,
        alias: String,
        ts: u64,
    ) -> (r: Result<(String, String), String>)
        requires
            old(handles).wf(),
        ensures
            final(handles).wf(),
            final(storage).backend == old(storage).backend,
            alias@ == default_name() ==> (r matches Ok((c, p)) && c@ == "/org/freedesktop/secrets/collection/default"@ && p@
                == "/"@) && *final(storage) == *old(storage) && *final(handles) == *old(handles),
            alias@ != default_name() && property_errors(properties@).len() > 0 ==> fails_with(
                r,
                "Error creating collection: "@ + joined(property_errors(properties@), ", "@),
            ) && *final(storage) == *old(storage) && *final(handles) == *old(handles),
            alias@ != default_name() && property_errors(properties@).len() == 0 && !string_properties(properties@).dom().contains(
                collection_label_property(),
            ) ==> fails_with(r, "Error creating collection: "@ + "No label specified"@) && *final(storage) == *old(storage)
                && *final(handles) == *old(handles),
            alias@ != default_name() && property_errors(properties@).len() == 0 && string_properties(properties@).dom().contains(
                collection_label_property(),
            ) ==> match r {
                Ok((c, p)) => {
                    let n = final(storage).collections@.last();
                    &&& p@ == "/"@
                    &&& final(storage).collections@.len() == old(storage).collections@.len() + 1
                    &&& final(storage).collections@.drop_last() == old(storage).collections@
                    &&& n.name@ == string_properties(properties@)[collection_label_property()]
                    &&& n.uuid != 0
                    &&& n.items@.len() == 0 && n.locked && n.created == ts && n.modified == ts
                    &&& (alias@.len() == 0 ==> n.aliases is None)
                    &&& (alias@.len() > 0 ==> crate::storage::collection::aliases_view(n.aliases) == Some(seq![alias@]))
                    &&& final(handles).has(n.uuid)
                    &&& c@ == handle_paths(n.uuid, final(handles).default_of(n.uuid))[0]
                },
                Err(m) => m@ == "Crypto error"@ && *final(storage) == *old(storage) && *final(handles) == *old(handles),
            },
    {
        proof { reveal_strlit("default"); }
        if same_text(alias.as_str(), "default") {
            return Ok((from_literal("/org/freedesktop/secrets/collection/default"), from_literal("/")));
        }
        let mut errors: Vec<String> = Vec::new();
        let mut string_props = Attributes::new();
        let mut k: usize = 0;
        while k < properties.len()
            invariant
                k <= properties@.len(),
                texts(errors@) == property_errors(properties@.take(k as int)),
                string_props@ == string_properties(properties@.take(k as int)),
            decreases properties@.len() - k,
        {
            let ghost prev = properties@.take(k as int);
            let ghost next = properties@.take(k + 1);
            assert(next.drop_last() =~= prev);
            assert(next.last() == properties@[k as int]);
            let name = &properties[k].0;
            match &properties[k].1 {
                Some(v) => {
                    string_props.insert(name.clone(), v.clone());
                    assert(texts(errors@) =~= property_errors(next));
                },
                None => {
                    if same_text(name.as_str(), "org.freedesktop.Secret.Collection.Label") {
                        let m = from_literal("Property ").concat(name.as_str()).concat(" should be a string");
                        let ghost before = errors@;
                        errors.push(m);
                        assert(texts(errors@) =~= texts(before).push(m@));
                        assert(texts(errors@) =~= property_errors(next));
                    } else {
                        assert(texts(errors@) =~= property_errors(next));
                    }
                    string_props.insert(name.clone(), String::new());
                },
            }
            k = k + 1;
        }
        assert(properties@.take(properties@.len() as int) =~= properties@);
        if errors.len() > 0 {
            let n = errors.len();
            assert(errors@.take(n as int) =~= errors@);
            let joined_errors = join_texts(&errors, n, ", ");
            return Err(from_literal("Error creating collection: ").concat(joined_errors.as_str()));
        }
        let label = match string_props.get("org.freedesktop.Secret.Collection.Label") {
            Some(l) => l.clone(),
            None => return Err(from_literal("Error creating collection: ").concat("No label specified")),
        };
        match storage.create_collection(label.as_str(), alias.as_str(), &string_props, ts) {
            Ok(uuid) => {
                let (h, _) = CollectionImpl::from_uuid(handles, uuid);
                assert(h.paths@.len() > 0) by {
                    assert(texts(h.paths@).len() == h.paths@.len());
                }
                let hp = h.path();
                proof {
                    if let DBusHandlePath::MultiplePaths(v) = &hp {
                        assert(v@.map_values(|p: String| p@) == texts(h.paths@));
                        assert(v@.map_values(|p: String| p@).len() == v@.len());
                    }
                }
                let path = hp.into_path();
                Ok((path, from_literal("/")))
            },
            Err(e) => Err(e.to_string()),
        }
    }

    /// The paths of the items that match `attributes` (see
    /// [`crate::storage::matches_query`]): those of unlocked collections, then those of
    /// locked ones. Handles are made where there are none yet, for the locked ones first.
    pub fn search_items(&mut self, storage: &Storage, handles: &mut ItemHandles, attributes: &Attributes) -> (r: Result<
        (Vec<String>, Vec<String>),
        String,
    >)
        requires
            old(handles).wf(),
        ensures
            final(handles).wf(),
            old(handles).handles@.is_prefix_of(final(handles).handles@),
            r matches Ok((unlocked, locked)) && paths_of_handles(
                final(handles),
                search_ids(storage.collections@, attributes@, false),
                texts(unlocked@),
            ) && paths_of_handles(final(handles), search_ids(storage.collections@, attributes@, true), texts(locked@)),
    {
        let (unlocked_ids, locked_ids) = storage.search_items(attributes);
        let locked = item_paths_of(handles, &locked_ids);
        let ghost middle = *handles;
        let unlocked = item_paths_of(handles, &unlocked_ids);
        proof {
            let ids = search_ids(storage.collections@, attributes@, true);
            assert forall|k: int| #![trigger ids[k]] 0 <= k < ids.len() implies handles.has(ids[k].uuid) && texts(locked@)[k]
                == handles.path_of(ids[k].uuid) by {
                assert(middle.has(ids[k].uuid));
            }
            assert(old(handles).handles@.is_prefix_of(handles.handles@)) by {
                assert forall|m: int| 0 <= m < old(handles).handles@.len() implies old(handles).handles@[m] == handles.handles@[m] by {
                    assert(middle.handles@[m] == handles.handles@[m]);
                }
            }
        }
        Ok((unlocked, locked))
    }

    /// For each object to unlock (by position), the handle of its collection, when that
    /// collection is published: the caller unlocks each such collection with the content of
    /// its items file and reports the objects so unlocked, in order.
    pub fn unlock_targets(&self, handles: &CollectionHandles, objects: &Vec<String>) -> (r: Vec<(usize, CollectionImpl)>)
        requires
            forall|k: int| 0 <= k < objects@.len() ==> split_on((#[trigger] objects@[k])@, '/').len() >= 6,
        ensures
            r@.map_values(|e: (usize, CollectionImpl)| (e.0 as int, e.1.uuid)) == unlock_plan(handles.handles@, texts(objects@)),
    {
        let mut r: Vec<(usize, CollectionImpl)> = Vec::new();
        let mut k: usize = 0;
        while k < objects.len()
            invariant
                k <= objects@.len(),
                forall|m: int| 0 <= m < objects@.len() ==> split_on((#[trigger] objects@[m])@, '/').len() >= 6,
                r@.map_values(|e: (usize, CollectionImpl)| (e.0 as int, e.1.uuid)) == unlock_plan(
                    handles.handles@,
                    texts(objects@.take(k as int)),
                ),
            decreases objects@.len() - k,
        {
            let ghost prev = texts(objects@.take(k as int));
            let ghost next = texts(objects@.take(k + 1));
            assert(next.drop_last() =~= prev);
            assert(next.last() == objects@[k as int]@);
            let parts = split_segments(objects[k].as_str(), '/');
            assert(parts@.map_values(|x: String| x@).len() == parts@.len());
            let cp = join_texts(&parts, 6, "/");
            assert(parts@.take(6).map_values(|x: String| x@) =~= split_on(objects@[k as int]@, '/').take(6));
            let coll = handles.find_by_path(cp.as_str());
            let ghost before = r@;
            if coll.is_not_default() {
                r.push((k, coll));
                assert(r@.map_values(|e: (usize, CollectionImpl)| (e.0 as int, e.1.uuid)) =~= before.map_values(
                    |e: (usize, CollectionImpl)| (e.0 as int, e.1.uuid),
                ).push((k as int, coll.uuid)));
            }
            k = k + 1;
        }
        assert(objects@.take(objects@.len() as int) =~= objects@);
        r
    }

    /// Locks the collections named by `objects` (each path's sixth element is a collection
    /// name). Returns the paths of the handles of the collections locked, made where there
    /// are none yet, and `/`, as no prompt is needed.
    pub fn lock(&mut self, storage: &mut Storage, handles: &mut CollectionHandles, objects: &Vec<String>) -> (r: Result<
        (Vec<String>, String),
        String,
    >)
        requires
            old(handles).wf(),
            forall|k: int| 0 <= k < objects@.len() ==> split_on((#[trigger] objects@[k])@, '/').len() > 5,
        ensures
            final(handles).wf(),
            final(storage).backend == old(storage).backend,
            final(storage).collections@.len() == old(storage).collections@.len(),
            ({
                let names = objects@.map_values(|p: String| split_on(p@, '/')[5]);
                &&& r matches Ok((locked, p)) && p@ == "/"@ && texts(locked@) == lock_paths(
                    named_collections(old(storage).collections@, names),
                    *final(handles),
                )
                &&& forall|k: int| 0 <= k < old(storage).collections@.len() ==> {
                    let c = #[trigger] final(storage).collections@[k];
                    let o = old(storage).collections@[k];
                    if names.contains(o.name@) {
                        c.locked && c.uuid == o.uuid && c.name == o.name && c.items_view() == o.items_view().map_values(
                            |i: crate::storage::collection::ItemView| crate::storage::collection::locked_view(i),
                        )
                    } else {
                        c == o
                    }
                }
            }),
    {
        let mut names: Vec<String> = Vec::new();
        let mut k: usize = 0;
        while k < objects.len()
            invariant
                k <= objects@.len(),
                forall|m: int| 0 <= m < objects@.len() ==> split_on((#[trigger] objects@[m])@, '/').len() > 5,
                texts(names@) == objects@.take(k as int).map_values(|p: String| split_on(p@, '/')[5]),
            decreases objects@.len() - k,
        {
            let parts = split_segments(objects[k].as_str(), '/');
            assert(parts@.map_values(|x: String| x@).len() == parts@.len());
            assert(parts@.map_values(|x: String| x@)[5] == parts@[5]@);
            let ghost prev_names = texts(names@);
            let ghost prev = objects@.take(k as int);
            let ghost next = objects@.take(k + 1);
            assert(next =~= prev.push(objects@[k as int]));
            assert(next.map_values(|p: String| split_on(p@, '/')[5]) =~= prev.map_values(|p: String| split_on(p@, '/')[5]).push(
                split_on(objects@[k as int]@, '/')[5],
            ));
            names.push(parts[5].clone());
            assert(texts(names@) =~= prev_names.push(parts@[5]@));
            k = k + 1;
        }
        assert(objects@.take(objects@.len() as int) =~= objects@);
        let pairs = storage.lock_collections(&names);
        let mut locked: Vec<String> = Vec::new();
        let mut j: usize = 0;
        while j < pairs.len()
            invariant
                j <= pairs@.len(),
                handles.wf(),
                forall|m: int| 0 <= m < j ==> handles.has(#[trigger] pairs@[m].0),
                texts(locked@) == lock_paths(pairs@.take(j as int), *handles),
            decreases pairs@.len() - j,
        {
            let ghost before = *handles;
            let ghost prev = pairs@.take(j as int);
            let ghost next = pairs@.take(j + 1);
            assert(next.drop_last() =~= prev);
            assert(next.last() == pairs@[j as int]);
            let (h, _) = handles.get_or_insert(pairs[j].0, pairs[j].1);
            proof {
                assert forall|m: int| 0 <= m < prev.len() implies handles.default_of(#[trigger] prev[m].0) == before.default_of(
                    prev[m].0,
                ) by {
                    assert(prev[m] == pairs@[m]);
                    assert(before.has(pairs@[m].0));
                }
                lemma_lock_paths_stable(prev, before, *handles);
                assert forall|m: int| 0 <= m < j + 1 implies handles.has(#[trigger] pairs@[m].0) by {
                    if m < j {
                        assert(before.has(pairs@[m].0));
                    }
                }
            }
            let mut paths = crate::tks_dbus::collection_impl::copy_strings(&h.paths);
            let ghost before_locked = locked@;
            locked.append(&mut paths);
            assert(texts(locked@) =~= texts(before_locked) + texts(h.paths@));
            j = j + 1;
        }
        assert(pairs@.take(pairs@.len() as int) =~= pairs@);
        Ok((locked, from_literal("/")))
    }

    /// The secrets of the items at paths `items`, encrypted for the client in the session
    /// whose path is `session`, each with the path of the item's handle. The first item whose
    /// secret cannot be given fails the whole request.
    pub fn get_secrets(
        &mut self,
        storage: &Storage,
        sessions: &SessionManager,
        handles: &ItemHandles,
        items: &Vec<String>,
        session: String,
        sender: Option<String>,
    ) -> (r: Result<Vec<(String, (String, Vec<u8>, Vec<u8>, String))>, String>)
        requires
            sessions.wf(),
            secrets_fit(storage.collections@),
        ensures
            r matches Ok(v) ==> v@.len() == items@.len() && forall|k: int| 0 <= k < items@.len() ==> secret_entry(
                storage.collections@,
                sessions,
                handles,
                items@[k]@,
                session@,
                sender is Some,
                #[trigger] v@[k],
            ),
            r matches Err(m) ==> exists|k: int, item: ItemImpl|
                #![trigger named_by(handles, items@[k]@, item)]
                0 <= k < items@.len() && named_by(handles, items@[k]@, item) && secret_reply(
                    storage.collections@,
                    sessions,
                    item.item_id,
                    session@,
                    sender is Some,
                    Err(m),
                ),
    {
        let mut r: Vec<(String, (String, Vec<u8>, Vec<u8>, String))> = Vec::new();
        let mut k: usize = 0;
        while k < items.len()
            invariant
                k <= items@.len(),
                sessions.wf(),
                secrets_fit(storage.collections@),
                r@.len() == k,
                forall|m: int| 0 <= m < k ==> secret_entry(
                    storage.collections@,
                    sessions,
                    handles,
                    items@[m]@,
                    session@,
                    sender is Some,
                    #[trigger] r@[m],
                ),
            decreases items@.len() - k,
        {
            let item = ItemImpl::from_path(handles, items[k].as_str());
            assert(named_by(handles, items@[k as int]@, item));
            let has_sender = sender.is_some();
            let sender_copy = if has_sender { Some(String::new()) } else { None };
            let reply = item.get_secret(storage, sessions, session.clone(), sender_copy);
            match reply {
                Ok(secret) => {
                    let ghost prev = r@;
                    let ghost iv = item;
                    r.push((item.path, secret));
                    proof {
                        assert(secret_entry(storage.collections@, sessions, handles, items@[k as int]@, session@, sender is Some, r@[k as int]));
                        assert forall|m: int| 0 <= m < k + 1 implies secret_entry(
                            storage.collections@,
                            sessions,
                            handles,
                            items@[m]@,
                            session@,
                            sender is Some,
                            #[trigger] r@[m],
                        ) by {
                            if m < k {
                                assert(r@[m] == prev[m]);
                            }
                        }
                    }
                },
                Err(m) => {
                    return Err(m);
                },
            }
            k = k + 1;
        }
        Ok(r)
    }
}

} // verus!
