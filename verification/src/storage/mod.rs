//! Storage of collections and their items.

pub mod attributes;
pub mod collection;
pub mod password_store;
pub mod tks_gcm;

use vstd::prelude::*;
use crate::error::TksError;
use crate::ids::{uuid_text, uuid_to_string};
use crate::crypto::c_int_max;
use crate::storage::attributes::Attributes;
use crate::storage::collection::{
    aliases_view, item_index, locked_view, unlock_outcome, Collection, CollectionSecrets, Item, ItemId, ItemView, ItemsPayload,
};
use crate::text::same_text;
use crate::tks_dbus::prompt_impl::PromptAction;
use vstd::utf8::encode_utf8;
use crate::storage::tks_gcm::TksGcmBackend;
use crate::text::{from_literal, push_char};

verus! {

/// The kinds of storage backends.
#[derive(Debug, Clone, Copy, PartialEq, Eq, Structural)]
pub enum StorageBackendType {
    /// Use EXPERIMENTAL fscrypt to handle item encryption on disk.
    FSCrypt,
    TksGcm,
    PasswordStore,
}

/// The path `base` extended by `name`, as `PathBuf::push` extends it: an absolute `name`
/// replaces the path, otherwise a separator is put between them unless `base` is empty
/// or already ends with one.
pub open spec fn path_join(base: Seq<char>, name: Seq<char>) -> Seq<char> {
    if name.len() > 0 && name[0] == '/' {
        name
    } else if base.len() == 0 || base.last() == '/' {
        base + name
    } else {
        base + seq!['/'] + name
    }
}

/// Extends the path `base` by `name` (see [`path_join`]).
pub fn join_path(base: &str, name: &str) -> (r: String)
    ensures
        r@ == path_join(base@, name@),
{
    let name_len = name.unicode_len();
    let base_len = base.unicode_len();
    if name_len > 0 && name.get_char(0) == '/' {
        return from_literal(name);
    }
    let mut r = from_literal(base);
    if !(base_len == 0 || base.get_char(base_len - 1) == '/') {
        push_char(&mut r, '/');
    }
    r.append(name);
    r
}


/// The collections of the service and the backend that stores them.
pub struct Storage {
    pub backend: TksGcmBackend,
    pub collections: Vec<Collection>,
}

/// The message of the error for a collection that is not there.
pub open spec fn collection_not_found_message(uuid: u128) -> Seq<char> {
    "Collection '"@ + uuid_text(uuid) + "' not found"@
}

pub fn collection_not_found(uuid: u128) -> (r: TksError)
    ensures
        r matches TksError::IOError(m) && m@ == collection_not_found_message(uuid),
{
    let m = from_literal("Collection '").concat(uuid_to_string(uuid).as_str()).concat("' not found");
    TksError::IOError(m)
}

/// `j` is the position of the first collection whose id is `uuid`.
pub open spec fn is_first_collection(cols: Seq<Collection>, uuid: u128, j: int) -> bool {
    0 <= j < cols.len() && cols[j].uuid == uuid && forall|k: int| 0 <= k < j ==> cols[k].uuid != uuid
}

/// The position of the first collection whose id is `uuid`, if any.
pub open spec fn collection_index(cols: Seq<Collection>, uuid: u128) -> Option<int> {
    if exists|j: int| is_first_collection(cols, uuid, j) {
        Some(choose|j: int| is_first_collection(cols, uuid, j))
    } else {
        None
    }
}

pub proof fn lemma_collection_index(cols: Seq<Collection>, uuid: u128, j: int)
    requires
        is_first_collection(cols, uuid, j),
    ensures
        collection_index(cols, uuid) == Some(j),
{
    let i = choose|i: int| is_first_collection(cols, uuid, i);
    assert(is_first_collection(cols, uuid, i));
    if i < j {
        assert(cols[i].uuid != uuid);
    } else if i > j {
        assert(cols[j].uuid != uuid);
    }
}

/// A collection `uuid` at `m` makes `uuid` found.
pub proof fn lemma_first_collection_exists(cols: Seq<Collection>, uuid: u128, m: int)
    requires
        0 <= m < cols.len(),
        cols[m].uuid == uuid,
    ensures
        collection_index(cols, uuid) is Some,
    decreases m,
{
    if exists|k: int| 0 <= k < m && cols[k].uuid == uuid {
        let k = choose|k: int| 0 <= k < m && cols[k].uuid == uuid;
        lemma_first_collection_exists(cols, uuid, k);
    } else {
        assert(is_first_collection(cols, uuid, m));
    }
}

pub proof fn lemma_no_collection_index(cols: Seq<Collection>, uuid: u128)
    requires
        forall|k: int| 0 <= k < cols.len() ==> cols[k].uuid != uuid,
    ensures
        collection_index(cols, uuid) is None,
{
}

/// Where the first item `item` of the first collection `collection` is: the positions of
/// the collection and of the item in it, if both are there.
pub open spec fn item_location(cols: Seq<Collection>, collection: u128, item: u128) -> Option<(int, int)> {
    match collection_index(cols, collection) {
        Some(j) => match item_index(cols[j].items@, item) {
            Some(k) => Some((j, k)),
            None => None,
        },
        None => None,
    }
}

/// Every secret held fits the length the cryptographic library takes.
pub open spec fn secrets_fit(cols: Seq<Collection>) -> bool {
    forall|j: int, k: int| 0 <= j < cols.len() && 0 <= k < cols[j].items@.len() ==> ((#[trigger] cols[j].items@[k]).data matches Some(
        d,
    ) ==> d.data@.len() <= c_int_max())
}

/// `a` and `b` hold the same collections, with the same items.
pub open spec fn same_contents(a: Seq<Collection>, b: Seq<Collection>) -> bool {
    &&& a.len() == b.len()
    &&& forall|m: int| 0 <= m < a.len() ==> (#[trigger] a[m]).same_metadata(&b[m]) && a[m].items@ == b[m].items@
}

/// `new` is `old` but for item `k` of collection `j`, which keeps its id and creation time
/// and is stamped as modified at `ts`, as is its collection.
pub open spec fn item_updated(old: Seq<Collection>, new: Seq<Collection>, j: int, k: int, ts: u64) -> bool {
    let o = old[j];
    let n = new[j];
    &&& new.len() == old.len()
    &&& forall|m: int| 0 <= m < old.len() && m != j ==> new[m] == old[m]
    &&& n.schema_version == o.schema_version && n.uuid == o.uuid && n.default == o.default
    &&& n.name == o.name && n.aliases == o.aliases && n.created == o.created
    &&& n.path == o.path && n.items_path == o.items_path && n.locked == o.locked
    &&& n.modified == ts
    &&& n.items@.len() == o.items@.len()
    &&& forall|m: int| 0 <= m < o.items@.len() && m != k ==> n.items@[m] == o.items@[m]
    &&& n.items@[k].id == o.items@[k].id && n.items@[k].created == o.items@[k].created
    &&& n.items@[k].modified == ts
}

/// Updating one item leaves every item where it was found: the first collection `c` and
/// its first item `i` are still at the same positions, and the collection's lock is kept.
pub proof fn lemma_item_updated_keeps_location(old: Seq<Collection>, new: Seq<Collection>, j: int, k: int, ts: u64, c: u128, i: u128)
    requires
        item_updated(old, new, j, k, ts),
        item_location(old, c, i) == Some((j, k)),
    ensures
        item_location(new, c, i) == Some((j, k)),
        new[j].locked == old[j].locked,
{
    let oj = choose|x: int| is_first_collection(old, c, x);
    assert(is_first_collection(old, c, oj));
    assert(oj == j);
    assert(is_first_collection(new, c, j)) by {
        assert forall|m: int| 0 <= m < j implies new[m].uuid != c by {
            assert(old[m].uuid != c);
        }
    }
    lemma_collection_index(new, c, j);
    let ok = choose|x: int| crate::storage::collection::is_first_item(old[j].items@, i, x);
    assert(crate::storage::collection::is_first_item(old[j].items@, i, ok));
    assert(ok == k);
    assert(crate::storage::collection::is_first_item(new[j].items@, i, k)) by {
        assert forall|m: int| 0 <= m < k implies new[j].items@[m].id.uuid != i by {
            assert(old[j].items@[m].id.uuid != i);
        }
    }
    crate::storage::collection::lemma_item_index(new[j].items@, i, k);
}

impl Storage {
    /// The position of the first collection `uuid`, if any.
    pub fn collection_position(&self, uuid: u128) -> (r: Option<usize>)
        ensures
            r matches Some(j) ==> j < self.collections@.len() && self.collections@[j as int].uuid == uuid
                && forall|k: int| 0 <= k < j ==> self.collections@[k].uuid != uuid,
            r is None ==> forall|k: int| 0 <= k < self.collections@.len() ==> self.collections@[k].uuid != uuid,
            match r {
                Some(j) => collection_index(self.collections@, uuid) == Some(j as int),
                None => collection_index(self.collections@, uuid) is None,
            },
    {
        let mut i: usize = 0;
        while i < self.collections.len()
            invariant
                i <= self.collections@.len(),
                forall|k: int| 0 <= k < i ==> self.collections@[k].uuid != uuid,
            decreases self.collections@.len() - i,
        {
            if self.collections[i].uuid == uuid {
                proof { lemma_collection_index(self.collections@, uuid, i as int); }
                return Some(i);
            }
            i = i + 1;
        }
        proof { lemma_no_collection_index(self.collections@, uuid); }
        None
    }

    /// Runs `f` on the collection `uuid`.
    pub fn with_collection<F, T>(&self, uuid: u128, f: F) -> (r: Result<T, TksError>)
        where
            F: FnOnce(&Collection) -> Result<T, TksError>,
        requires
            forall|c: &Collection| f.requires((c,)),
        ensures
            (forall|k: int| 0 <= k < self.collections@.len() ==> self.collections@[k].uuid != uuid) ==> (r matches Err(
                TksError::IOError(m),
            ) && m@ == collection_not_found_message(uuid)),
            (exists|k: int| 0 <= k < self.collections@.len() && self.collections@[k].uuid == uuid) ==> exists|j: int|
                #![trigger self.collections@[j]]
                0 <= j < self.collections@.len() && self.collections@[j].uuid == uuid && (forall|k: int|
                    0 <= k < j ==> self.collections@[k].uuid != uuid) && f.ensures((&self.collections@[j],), r),
    {
        match self.collection_position(uuid) {
            Some(j) => f(&self.collections[j]),
            None => Err(collection_not_found(uuid)),
        }
    }

    /// Runs `f` on the collection `uuid`, letting it change the collection, which is then
    /// stamped as modified at time `ts` whatever `f` returned.
    pub fn modify_collection<F, T>(&mut self, uuid: u128, f: F, ts: u64) -> (r: Result<T, TksError>)
        where
            F: FnOnce(&mut Collection) -> Result<T, TksError>,
        requires
            forall|c: &mut Collection| f.requires((c,)),
        ensures
            collection_index(old(self).collections@, uuid) is None ==> (r matches Err(TksError::NotFound(Some(m))) && m@
                == collection_not_found_message(uuid) && *final(self) == *old(self)),
            final(self).collections@.len() == old(self).collections@.len(),
            final(self).backend == old(self).backend,
            collection_index(old(self).collections@, uuid) matches Some(j) ==> {
                &&& final(self).collections@[j].modified == ts
                &&& forall|k: int| 0 <= k < old(self).collections@.len() && k != j ==> final(self).collections@[k]
                    == old(self).collections@[k]
            },
    {
        match self.collection_position(uuid) {
            Some(j) => {
                let r = f(&mut self.collections[j]);
                self.collections[j].modified = ts;
                r
            },
            None => {
                let m = from_literal("Collection '").concat(uuid_to_string(uuid).as_str()).concat("' not found");
                Err(TksError::NotFound(Some(m)))
            },
        }
    }
}

/// Collection `c` has the alias `alias`.
pub open spec fn has_alias(c: Collection, alias: Seq<char>) -> bool {
    aliases_view(c.aliases) matches Some(v) && v.contains(alias)
}

/// The message of the error for an alias that no collection has.
pub open spec fn alias_not_found_message(alias: Seq<char>) -> Seq<char> {
    "Alias '"@ + alias + "' not found"@
}

/// The additional authenticated data of a collection's items file: its metadata followed by
/// the paths of its metadata and items files.
pub open spec fn items_aad(metadata: Seq<char>, path: Seq<char>, items_path: Seq<char>) -> Seq<char> {
    metadata + path + items_path
}

/// Builds the additional authenticated data of an items file (see [`items_aad`]).
pub fn collection_items_aad(metadata: &str, path: &str, items_path: &str) -> (r: String)
    ensures
        r@ == items_aad(metadata@, path@, items_path@),
{
    from_literal(metadata).concat(path).concat(items_path)
}

/// An item matches the searched attributes when it has each searched attribute with the
/// searched value; no searched attribute matches every item.
pub open spec fn matches_query(item: ItemView, query: Map<Seq<char>, Seq<char>>) -> bool {
    forall|k: Seq<char>| #[trigger] query.dom().contains(k) ==> item.attributes.dom().contains(k)
        && item.attributes[k] == query[k]
}

/// The ids of the items of `items` that match `query`, in order.
pub open spec fn matching_ids(items: Seq<ItemView>, query: Map<Seq<char>, Seq<char>>) -> Seq<ItemId> {
    items.filter(|i: ItemView| matches_query(i, query)).map_values(|i: ItemView| i.id)
}

/// The ids of the matching items of the collections whose locked state is `locked`,
/// collection by collection.
pub open spec fn search_ids(cols: Seq<Collection>, query: Map<Seq<char>, Seq<char>>, locked: bool) -> Seq<ItemId>
    decreases cols.len(),
{
    if cols.len() == 0 {
        Seq::empty()
    } else {
        let c = cols.last();
        search_ids(cols.drop_last(), query, locked) + if c.locked == locked {
            matching_ids(c.items_view(), query)
        } else {
            Seq::empty()
        }
    }
}

/// An id that filtering one collection's items by `query` keeps is that of an item that
/// carries every searched attribute with the searched value.
proof fn lemma_matching_id(items: Seq<ItemView>, query: Map<Seq<char>, Seq<char>>, m: int) -> (k: int)
    requires
        0 <= m < matching_ids(items, query).len(),
    ensures
        0 <= k < items.len(),
        items[k].id == matching_ids(items, query)[m],
        forall|key: Seq<char>| #[trigger] query.dom().contains(key) ==> items[k].attributes.dom().contains(key)
            && items[k].attributes[key] == query[key],
{
    let p = |i: ItemView| matches_query(i, query);
    let f = items.filter(p);
    assert(f.map_values(|i: ItemView| i.id) == matching_ids(items, query));
    assert(matching_ids(items, query)[m] == f[m].id);
    items.lemma_filter_pred(p, m);
    assert(f.contains(f[m]));
    items.lemma_filter_contains_rev(p, f[m]);
    let k = choose|k: int| 0 <= k < items.len() && items[k] == f[m];
    assert(matches_query(items[k], query));
    k
}

/// Every item that carries every searched attribute with the searched value has its id
/// kept by filtering by `query`.
proof fn lemma_matching_kept(items: Seq<ItemView>, query: Map<Seq<char>, Seq<char>>, k: int)
    requires
        0 <= k < items.len(),
        forall|key: Seq<char>| #[trigger] query.dom().contains(key) ==> items[k].attributes.dom().contains(key)
            && items[k].attributes[key] == query[key],
    ensures
        matching_ids(items, query).contains(items[k].id),
{
    let p = |i: ItemView| matches_query(i, query);
    let f = items.filter(p);
    assert(f.map_values(|i: ItemView| i.id) == matching_ids(items, query));
    assert(p(items[k]));
    items.lemma_filter_contains(p, k);
    let m = choose|m: int| 0 <= m < f.len() && f[m] == items[k];
    assert(matching_ids(items, query)[m] == items[k].id);
}

/// Law: a search finds only exact matches. The `m`-th id that a search of the collections
/// in lock state `locked` gives is that of an item (the `k`-th of the `j`-th collection,
/// which is in that lock state) carrying every searched attribute with the searched value.
pub proof fn lemma_search_finds_only_matches(cols: Seq<Collection>, query: Map<Seq<char>, Seq<char>>, locked: bool, m: int) -> (jk: (int, int))
    requires
        0 <= m < search_ids(cols, query, locked).len(),
    ensures
        0 <= jk.0 < cols.len(),
        cols[jk.0].locked == locked,
        0 <= jk.1 < cols[jk.0].items@.len(),
        cols[jk.0].items_view()[jk.1].id == search_ids(cols, query, locked)[m],
        forall|key: Seq<char>| #[trigger] query.dom().contains(key) ==> cols[jk.0].items_view()[jk.1].attributes.dom().contains(key)
            && cols[jk.0].items_view()[jk.1].attributes[key] == query[key],
    decreases cols.len(),
{
    let rest = cols.drop_last();
    let c = cols.last();
    let head = search_ids(rest, query, locked);
    let tail = if c.locked == locked {
        matching_ids(c.items_view(), query)
    } else {
        Seq::empty()
    };
    assert(search_ids(cols, query, locked) == head + tail);
    if m < head.len() {
        let (j, k) = lemma_search_finds_only_matches(rest, query, locked, m);
        assert(rest[j] == cols[j]);
        (j, k)
    } else {
        let k = lemma_matching_id(c.items_view(), query, m - head.len());
        assert(cols[cols.len() - 1] == c);
        (cols.len() - 1, k)
    }
}

/// Law: a search finds every exact match. The `k`-th item of the `j`-th collection, when
/// that collection is in lock state `locked` and the item carries every searched attribute
/// with the searched value, has its id among those the search gives.
pub proof fn lemma_search_finds_all_matches(cols: Seq<Collection>, query: Map<Seq<char>, Seq<char>>, locked: bool, j: int, k: int)
    requires
        0 <= j < cols.len(),
        cols[j].locked == locked,
        0 <= k < cols[j].items@.len(),
        forall|key: Seq<char>| #[trigger] query.dom().contains(key) ==> cols[j].items_view()[k].attributes.dom().contains(key)
            && cols[j].items_view()[k].attributes[key] == query[key],
    ensures
        search_ids(cols, query, locked).contains(cols[j].items_view()[k].id),
    decreases cols.len(),
{
    let rest = cols.drop_last();
    let c = cols.last();
    let head = search_ids(rest, query, locked);
    let tail = if c.locked == locked {
        matching_ids(c.items_view(), query)
    } else {
        Seq::empty()
    };
    let all = search_ids(cols, query, locked);
    assert(all == head + tail);
    let id = cols[j].items_view()[k].id;
    if j < rest.len() {
        assert(rest[j] == cols[j]);
        lemma_search_finds_all_matches(rest, query, locked, j, k);
        let m = choose|m: int| 0 <= m < head.len() && head[m] == id;
        assert(all[m] == head[m]);
    } else {
        assert(cols[j] == c);
        lemma_matching_kept(c.items_view(), query, k);
        let m = choose|m: int| 0 <= m < tail.len() && tail[m] == id;
        assert(all[head.len() + m] == tail[m]);
    }
}

/// The ids and default flags of the collections whose name is in `names`, in collection
/// order.
pub open spec fn named_collections(cols: Seq<Collection>, names: Seq<Seq<char>>) -> Seq<(u128, bool)>
    decreases cols.len(),
{
    if cols.len() == 0 {
        Seq::empty()
    } else {
        named_collections(cols.drop_last(), names) + if names.contains(cols.last().name@) {
            seq![(cols.last().uuid, cols.last().default)]
        } else {
            Seq::empty()
        }
    }
}

/// Law: locking reports exactly the collections it was asked for. The entries are those of
/// the collections whose name is among `names`, one per such collection, in collection
/// order, each with its id and default flag, and no other.
pub proof fn lemma_named_collections_exact(cols: Seq<Collection>, names: Seq<Seq<char>>)
    ensures
        named_collections(cols, names) == cols.filter(|c: Collection| names.contains(c.name@)).map_values(
            |c: Collection| (c.uuid, c.default),
        ),
    decreases cols.len(),
{
    reveal_with_fuel(Seq::filter, 1);
    if cols.len() > 0 {
        lemma_named_collections_exact(cols.drop_last(), names);
        let f = cols.drop_last().filter(|c: Collection| names.contains(c.name@));
        if names.contains(cols.last().name@) {
            assert(f.push(cols.last()).map_values(|c: Collection| (c.uuid, c.default)) =~= f.map_values(
                |c: Collection| (c.uuid, c.default),
            ) + seq![(cols.last().uuid, cols.last().default)]);
        } else {
            assert(f.map_values(|c: Collection| (c.uuid, c.default)) =~= f.map_values(|c: Collection| (c.uuid, c.default))
                + Seq::<(u128, bool)>::empty());
        }
    } else {
        assert(cols.filter(|c: Collection| names.contains(c.name@)) =~= Seq::<Collection>::empty());
    }
}

/// The texts of a sequence of strings.
pub open spec fn texts(v: Seq<String>) -> Seq<Seq<char>> {
    v.map_values(|s: String| s@)
}

fn text_in(v: &Vec<String>, t: &str) -> (r: bool)
    ensures
        r == texts(v@).contains(t@),
{
    let mut i: usize = 0;
    while i < v.len()
        invariant
            i <= v@.len(),
            forall|k: int| 0 <= k < i ==> v@[k]@ != t@,
        decreases v@.len() - i,
    {
        if same_text(v[i].as_str(), t) {
            assert(texts(v@)[i as int] == t@);
            return true;
        }
        i = i + 1;
    }
    assert forall|k: int| 0 <= k < v@.len() implies #[trigger] texts(v@)[k] != t@ by {
        assert(texts(v@)[k] == v@[k]@);
    }
    false
}

impl Item {
    /// Whether the item matches the searched attributes (see [`matches_query`]).
    pub fn matches_query(&self, query: &Attributes) -> (r: bool)
        ensures
            r == matches_query(self@, query@),
    {
        let n = query.len();
        let mut i: usize = 0;
        while i < n
            invariant
                n == query.names().len(),
                n == query@.dom().len(),
                forall|k: Seq<char>| #[trigger] query@.dom().contains(k) <==> query.names().contains(k),
                i <= n,
                forall|j: int| 0 <= j < i ==> self.attributes@.dom().contains(#[trigger] query.names()[j])
                    && self.attributes@[query.names()[j]] == query@[query.names()[j]],
            decreases n - i,
        {
            let (k, v) = query.entry(i);
            let same = match self.attributes.get(k.as_str()) {
                Some(w) => same_text(w.as_str(), v.as_str()),
                None => false,
            };
            if !same {
                assert(query@.dom().contains(k@));
                return false;
            }
            i = i + 1;
        }
        assert forall|k: Seq<char>| #[trigger] query@.dom().contains(k) implies self.attributes@.dom().contains(k)
            && self.attributes@[k] == query@[k] by {
            let j = choose|j: int| 0 <= j < query.names().len() && query.names()[j] == k;
            assert(self.attributes@.dom().contains(query.names()[j]));
        }
        true
    }
}


/// `item` as an item of the collection `uuid`.
pub open spec fn claimed_by(item: ItemView, uuid: u128) -> ItemView {
    ItemView { id: ItemId { collection_uuid: uuid, ..item.id }, ..item }
}

/// The position of the first collection having `alias`.
pub open spec fn alias_position(cols: Seq<Collection>, alias: Seq<char>) -> Option<int> {
    if exists|j: int| 0 <= j < cols.len() && has_alias(cols[j], alias) {
        Some(choose|j: int| 0 <= j < cols.len() && has_alias(cols[j], alias)
            && forall|k: int| 0 <= k < j ==> !has_alias(cols[k], alias))
    } else {
        None
    }
}

proof fn lemma_alias_position(cols: Seq<Collection>, alias: Seq<char>, j: int)
    requires
        0 <= j < cols.len(),
        has_alias(cols[j], alias),
        forall|k: int| 0 <= k < j ==> !has_alias(cols[k], alias),
    ensures
        alias_position(cols, alias) == Some(j),
{
    let c = choose|c: int| 0 <= c < cols.len() && has_alias(cols[c], alias)
        && forall|k: int| 0 <= k < c ==> !has_alias(cols[k], alias);
    assert(0 <= c < cols.len() && has_alias(cols[c], alias));
    if c < j {
        assert(!has_alias(cols[c], alias));
    } else if c > j {
        assert(!has_alias(cols[j], alias));
    }
}

impl Storage {
    /// The name of the first collection that has `alias`.
    pub fn read_alias(&mut self, alias: &str) -> (r: Result<String, TksError>)
        ensures
            *final(self) == *old(self),
            match alias_position(old(self).collections@, alias@) {
                Some(j) => r matches Ok(name) && name@ == old(self).collections@[j].name@,
                None => r matches Err(TksError::NotFound(Some(m))) && m@ == alias_not_found_message(alias@),
            },
    {
        let mut i: usize = 0;
        while i < self.collections.len()
            invariant
                i <= self.collections@.len(),
                forall|k: int| 0 <= k < i ==> !has_alias(self.collections@[k], alias@),
            decreases self.collections@.len() - i,
        {
            match &self.collections[i].aliases {
                Some(v) => {
                    if text_in(v, alias) {
                        proof { lemma_alias_position(self.collections@, alias@, i as int); }
                        return Ok(self.collections[i].name.clone());
                    }
                },
                None => {},
            }
            i = i + 1;
        }
        let m = from_literal("Alias '").concat(alias).concat("' not found");
        Err(TksError::NotFound(Some(m)))
    }

    /// The positions of the first collection `collection_uuid` and of its first item
    /// `item_uuid`.
    pub fn locate_item(&self, collection_uuid: u128, item_uuid: u128) -> (r: Result<(usize, usize), TksError>)
        ensures
            collection_index(self.collections@, collection_uuid) is None ==> (r matches Err(TksError::IOError(m))
                && m@ == collection_not_found_message(collection_uuid)),
            collection_index(self.collections@, collection_uuid) is Some && item_location(
                self.collections@,
                collection_uuid,
                item_uuid,
            ) is None ==> r == Err::<(usize, usize), TksError>(TksError::NotFound(None)),
            item_location(self.collections@, collection_uuid, item_uuid) matches Some((j, k)) ==> r == Ok::<
                (usize, usize),
                TksError,
            >((j as usize, k as usize)),
            r matches Ok((j, k)) ==> j < self.collections@.len() && k < self.collections@[j as int].items@.len()
                && item_location(self.collections@, collection_uuid, item_uuid) == Some((j as int, k as int)),
    {
        let j = match self.collection_position(collection_uuid) {
            Some(j) => j,
            None => return Err(collection_not_found(collection_uuid)),
        };
        match self.collections[j].item_position(item_uuid) {
            Some(k) => Ok((j, k)),
            None => Err(TksError::NotFound(None)),
        }
    }

    /// Runs `f` on the item `item_uuid` of the collection `collection_uuid`.
    pub fn with_item<F, T>(&mut self, collection_uuid: u128, item_uuid: u128, f: F) -> (r: Result<T, TksError>)
        where
            F: FnOnce(&Item) -> Result<T, TksError>,
        requires
            forall|i: &Item| f.requires((i,)),
        ensures
            *final(self) == *old(self),
            (forall|k: int| 0 <= k < old(self).collections@.len() ==> old(self).collections@[k].uuid != collection_uuid)
                ==> (r matches Err(TksError::IOError(m)) && m@ == collection_not_found_message(collection_uuid)),
            forall|j: int| #![trigger old(self).collections@[j]]
                0 <= j < old(self).collections@.len() && old(self).collections@[j].uuid == collection_uuid
                && (forall|k: int| 0 <= k < j ==> old(self).collections@[k].uuid != collection_uuid) ==> {
                    let items = old(self).collections@[j].items@;
                    &&& (forall|k: int| 0 <= k < items.len() ==> items[k].id.uuid != item_uuid) ==> r
                        == Err::<T, TksError>(TksError::NotFound(None))
                    &&& (exists|k: int| 0 <= k < items.len() && items[k].id.uuid == item_uuid) ==> exists|k: int|
                        #![trigger items[k]]
                        0 <= k < items.len() && items[k].id.uuid == item_uuid
                            && (forall|m: int| 0 <= m < k ==> items[m].id.uuid != item_uuid)
                            && f.ensures((&items[k],), r)
                },
    {
        let j = match self.collection_position(collection_uuid) {
            Some(j) => j,
            None => return Err(collection_not_found(collection_uuid)),
        };
        match self.collections[j].item_position(item_uuid) {
            Some(k) => f(&self.collections[j].items[k]),
            None => Err(TksError::NotFound(None)),
        }
    }

    /// Runs `f` on the item `item_uuid` of the collection `collection_uuid`, letting it
    /// change the item; when `f` succeeds, the item's modification time becomes `ts`.
    pub fn modify_item<F, T>(&mut self, collection_uuid: u128, item_uuid: u128, f: F, ts: u64) -> (r: Result<T, TksError>)
        where
            F: FnOnce(&mut Item) -> Result<T, TksError>,
        requires
            forall|i: &mut Item| f.requires((i,)),
        ensures
            final(self).backend == old(self).backend,
            final(self).collections@.len() == old(self).collections@.len(),
            (forall|k: int| 0 <= k < old(self).collections@.len() ==> old(self).collections@[k].uuid != collection_uuid)
                ==> (r matches Err(TksError::IOError(m)) && m@ == "Collection not found"@ && *final(self) == *old(self)),
            forall|j: int| #![trigger old(self).collections@[j]]
                0 <= j < old(self).collections@.len() && old(self).collections@[j].uuid == collection_uuid
                && (forall|k: int| 0 <= k < j ==> old(self).collections@[k].uuid != collection_uuid) ==> {
                    let items = old(self).collections@[j].items@;
                    let fin = final(self).collections@[j];
                    &&& (forall|k: int| 0 <= k < items.len() ==> items[k].id.uuid != item_uuid) ==> r
                        == Err::<T, TksError>(TksError::NotFound(None)) && *final(self) == *old(self)
                    &&& forall|m: int| 0 <= m < old(self).collections@.len() && m != j ==> final(self).collections@[m]
                        == old(self).collections@[m]
                    &&& fin.same_metadata(&old(self).collections@[j])
                    &&& fin.items@.len() == items.len()
                    &&& (exists|k: int| 0 <= k < items.len() && items[k].id.uuid == item_uuid) ==> exists|k: int|
                        #![trigger items[k]]
                        0 <= k < items.len() && items[k].id.uuid == item_uuid
                            && (forall|m: int| 0 <= m < k ==> items[m].id.uuid != item_uuid)
                            && (forall|m: int| 0 <= m < items.len() && m != k ==> fin.items@[m] == items[m])
                            && (r is Ok ==> fin.items@[k].modified == ts)
                },
    {
        let j = match self.collection_position(collection_uuid) {
            Some(j) => j,
            None => return Err(TksError::IOError(from_literal("Collection not found"))),
        };
        let k = match self.collections[j].item_position(item_uuid) {
            Some(k) => k,
            None => return Err(TksError::NotFound(None)),
        };
        let ghost old_cols = self.collections@;
        let ghost old_items = self.collections@[j as int].items@;
        let result = f(&mut self.collections[j].items[k]);
        match result {
            Ok(t) => {
                self.collections[j].items[k].modified = ts;
                assert(self.collections@[j as int].items@[k as int].modified == ts);
                Ok(t)
            },
            Err(e) => Err(e),
        }
    }
}

impl Storage {
    /// Sets up the storage from the backend and the collections read from its metadata
    /// files: each collection keeps its items where the backend files items under its name.
    pub fn new(backend: TksGcmBackend, collections: Vec<Collection>) -> (r: Storage)
        ensures
            r.backend == backend,
            r.collections@.len() == collections@.len(),
            forall|k: int| 0 <= k < collections@.len() ==> {
                let c = #[trigger] r.collections@[k];
                let o = collections@[k];
                &&& c.items == o.items
                &&& c.items_path@ == path_join(backend.items_path@, o.name@)
                &&& c.uuid == o.uuid && c.name == o.name && c.aliases == o.aliases && c.locked == o.locked
                &&& c.default == o.default && c.path == o.path && c.created == o.created && c.modified == o.modified
                &&& c.schema_version == o.schema_version
            },
    {
        let mut storage = Storage { backend, collections };
        let mut k: usize = 0;
        while k < storage.collections.len()
            invariant
                k <= storage.collections@.len(),
                storage.backend == backend,
                storage.collections@.len() == collections@.len(),
                forall|m: int| k <= m < collections@.len() ==> #[trigger] storage.collections@[m] == collections@[m],
                forall|m: int| 0 <= m < k ==> {
                    let c = #[trigger] storage.collections@[m];
                    let o = collections@[m];
                    &&& c.items == o.items
                    &&& c.items_path@ == path_join(backend.items_path@, o.name@)
                    &&& c.uuid == o.uuid && c.name == o.name && c.aliases == o.aliases && c.locked == o.locked
                    &&& c.default == o.default && c.path == o.path && c.created == o.created && c.modified == o.modified
                    &&& c.schema_version == o.schema_version
                },
            decreases collections@.len() - k,
        {
            let items_path = join_path(storage.backend.items_path.as_str(), storage.collections[k].name.as_str());
            storage.collections[k].items_path = items_path;
            k = k + 1;
        }
        storage
    }

    /// Starts the storage at time `ts`: sets it up from the backend and the collections read
    /// from its metadata files (see [`Storage::new`]), then makes sure a collection has the
    /// alias `default`, creating the default collection when none has. Returns the storage
    /// and the uuid of the collection it created, if any (which is still to be saved).
    pub fn open(backend: TksGcmBackend, collections: Vec<Collection>, ts: u64) -> (r: Result<(Storage, Option<u128>), TksError>)
        ensures
            match r {
                Ok((s, created)) => {
                    &&& s.backend == backend
                    &&& alias_position(s.collections@, "default"@) is Some
                    &&& (created is None ==> s.collections@.len() == collections@.len())
                    &&& (created is Some ==> s.collections@.len() == collections@.len() + 1)
                    &&& forall|k: int| 0 <= k < collections@.len() ==> {
                        let c = #[trigger] s.collections@[k];
                        let o = collections@[k];
                        &&& c.items == o.items
                        &&& c.items_path@ == path_join(backend.items_path@, o.name@)
                        &&& c.uuid == o.uuid && c.name == o.name && c.aliases == o.aliases && c.locked == o.locked
                        &&& c.default == o.default && c.path == o.path && c.created == o.created
                        &&& c.modified == o.modified && c.schema_version == o.schema_version
                    }
                },
                Err(e) => e == TksError::CryptoError,
            },
    {
        let mut storage = Storage::new(backend, collections);
        let ghost loaded = storage;
        let created = storage.ensure_default_collection(ts)?;
        proof {
            if created is Some {
                assert forall|k: int| 0 <= k < collections@.len() implies #[trigger] storage.collections@[k] == loaded.collections@[k] by {
                    assert(storage.collections@.drop_last()[k] == storage.collections@[k]);
                }
            }
        }
        Ok((storage, created))
    }

    /// A collection read from the metadata file at `path`: it is locked, its items belong to
    /// it, and none of them holds a secret (secrets live in the items file only).
    pub fn load_collection(collection: Collection, path: &str) -> (r: Collection)
        ensures
            r.path@ == path@,
            r.locked,
            r.uuid == collection.uuid,
            r.name == collection.name,
            r.aliases == collection.aliases,
            r.default == collection.default,
            r.created == collection.created,
            r.modified == collection.modified,
            r.schema_version == collection.schema_version,
            r.items_path == collection.items_path,
            r.items@.len() == collection.items@.len(),
            forall|k: int| 0 <= k < r.items@.len() ==> #[trigger] r.items_view()[k] == locked_view(
                claimed_by(collection.items_view()[k], collection.uuid),
            ),
    {
        let mut c = collection;
        c.path = from_literal(path);
        c.locked = true;
        let mut k: usize = 0;
        while k < c.items.len()
            invariant
                k <= c.items@.len(),
                c.path@ == path@,
                c.locked,
                c.uuid == collection.uuid,
                c.name == collection.name,
                c.aliases == collection.aliases,
                c.default == collection.default,
                c.created == collection.created,
                c.modified == collection.modified,
                c.schema_version == collection.schema_version,
                c.items_path == collection.items_path,
                c.items@.len() == collection.items@.len(),
                forall|m: int| k <= m < c.items@.len() ==> #[trigger] c.items@[m] == collection.items@[m],
                forall|m: int| 0 <= m < k ==> #[trigger] c.items_view()[m] == locked_view(
                    claimed_by(collection.items_view()[m], collection.uuid),
                ),
            decreases c.items@.len() - k,
        {
            let ghost before = c.items@;
            let ghost before_view = c.items_view();
            let u = c.uuid;
            c.items[k].id.collection_uuid = u;
            c.items[k].data = None;
            proof {
                assert forall|m: int| 0 <= m < k + 1 implies #[trigger] c.items_view()[m] == locked_view(
                    claimed_by(collection.items_view()[m], collection.uuid),
                ) by {
                    if m < k {
                        assert(c.items@[m] == before[m]);
                        assert(before_view[m] == before[m]@);
                    } else {
                        assert(c.items@[m].label == collection.items@[m].label);
                        assert(c.items@[m].attributes == collection.items@[m].attributes);
                    }
                }
                assert forall|m: int| k + 1 <= m < c.items@.len() implies #[trigger] c.items@[m] == collection.items@[m] by {
                    assert(c.items@[m] == before[m]);
                }
            }
            k = k + 1;
        }
        c
    }

    /// Adds a new empty, locked collection called `name`, with `alias` unless it is empty,
    /// created at time `ts`. The backend decides where it is stored. The properties are
    /// ignored, as the Secret Service specification allows.
    pub fn create_collection(&mut self, name: &str, alias: &str, properties: &Attributes, ts: u64) -> (r: Result<u128, TksError>)
        ensures
            final(self).backend == old(self).backend,
            r is Err ==> r == Err::<u128, TksError>(TksError::CryptoError) && *final(self) == *old(self),
            r matches Ok(uuid) ==> {
                let c = final(self).collections@.last();
                &&& final(self).collections@.len() == old(self).collections@.len() + 1
                &&& final(self).collections@.drop_last() == old(self).collections@
                &&& c.uuid == uuid
                &&& uuid != 0
                &&& c.name@ == name@
                &&& c.path@ == path_join(old(self).backend.metadata_path@, name@)
                &&& c.items_path@ == path_join(old(self).backend.items_path@, name@)
                &&& c.items@.len() == 0
                &&& c.locked
                &&& c.created == ts && c.modified == ts
                &&& c.default == (name@ == crate::storage::collection::default_name())
                &&& (alias@.len() == 0 ==> c.aliases is None)
                &&& (alias@.len() > 0 ==> aliases_view(c.aliases) == Some(seq![alias@]))
            },
    {
        let (path, items_path) = match self.backend.new_metadata_path(name) {
            Ok(p) => p,
            Err(e) => return Err(e),
        };
        let mut coll = Collection::new(name, path.as_str(), items_path.as_str(), ts)?;
        if alias.unicode_len() > 0 {
            coll.aliases = Some(vec![from_literal(alias)]);
            assert(aliases_view(coll.aliases) =~= Some(seq![alias@]));
        }
        let uuid = coll.uuid;
        self.collections.push(coll);
        assert(self.collections@.drop_last() =~= old(self).collections@);
        Ok(uuid)
    }

    /// Makes sure a collection has the alias `default`, creating the default collection at
    /// time `ts` when none has. Returns the uuid of the collection it created, if any.
    pub fn ensure_default_collection(&mut self, ts: u64) -> (r: Result<Option<u128>, TksError>)
        ensures
            final(self).backend == old(self).backend,
            alias_position(old(self).collections@, "default"@) is Some ==> (r matches Ok(None) && *final(self) == *old(self)),
            r matches Ok(None) ==> *final(self) == *old(self),
            r matches Ok(Some(_)) ==> final(self).collections@.drop_last() == old(self).collections@
                && final(self).collections@.len() == old(self).collections@.len() + 1,
            r is Ok ==> alias_position(final(self).collections@, "default"@) is Some,
            r is Err ==> r == Err::<Option<u128>, TksError>(TksError::CryptoError) && *final(self) == *old(self),
    {
        proof { reveal_strlit("default"); }
        match self.read_alias("default") {
            Ok(_) => Ok(None),
            Err(_) => {
                let none = Attributes::new();
                let uuid = self.create_collection("default", "default", &none, ts)?;
                proof {
                    reveal_strlit("default");
                    let n = self.collections@.len() - 1;
                    assert(aliases_view(self.collections@[n].aliases) == Some(seq!["default"@]));
                    assert(seq!["default"@][0] == "default"@);
                    assert(has_alias(self.collections@[n], "default"@));
                }
                Ok(Some(uuid))
            },
        }
    }

    /// First step of saving a collection: it is stamped as modified at time `ts`. Returns its
    /// position; its metadata and, when it is unlocked, its items file are then written.
    pub fn save_collection(&mut self, uuid: u128, ts: u64) -> (r: Result<usize, TksError>)
        ensures
            final(self).backend == old(self).backend,
            final(self).collections@.len() == old(self).collections@.len(),
            r is Err ==> r == Err::<usize, TksError>(TksError::NotFound(None)) && *final(self) == *old(self)
                && forall|k: int| 0 <= k < old(self).collections@.len() ==> old(self).collections@[k].uuid != uuid,
            r matches Ok(j) ==> j < old(self).collections@.len() && old(self).collections@[j as int].uuid == uuid
                && (forall|k: int| 0 <= k < j ==> old(self).collections@[k].uuid != uuid)
                && final(self).collections@[j as int].modified == ts
                && final(self).collections@[j as int].items == old(self).collections@[j as int].items
                && final(self).collections@[j as int].name == old(self).collections@[j as int].name
                && final(self).collections@[j as int].uuid == uuid
                && final(self).collections@[j as int].locked == old(self).collections@[j as int].locked
                && final(self).collections@[j as int].path == old(self).collections@[j as int].path
                && final(self).collections@[j as int].items_path == old(self).collections@[j as int].items_path
                && forall|k: int| 0 <= k < old(self).collections@.len() && k != j ==> final(self).collections@[k]
                    == old(self).collections@[k],
            r matches Ok(j) ==> final(self).collections@[j as int] == (Collection {
                modified: ts,
                ..old(self).collections@[j as int]
            }),
    {
        match self.collection_position(uuid) {
            Some(j) => {
                self.collections[j].modified = ts;
                Ok(j)
            },
            None => Err(TksError::NotFound(None)),
        }
    }

    /// What saving the collection at `j` writes to its items file: nothing when it is
    /// locked (its secrets are not at hand), the secrets of all its items otherwise.
    pub fn secrets_to_save(&self, j: usize) -> (r: Option<CollectionSecrets>)
        requires
            j < self.collections@.len(),
            !self.collections@[j as int].locked ==> forall|k: int| 0 <= k < self.collections@[j as int].items@.len()
                ==> (#[trigger] self.collections@[j as int].items@[k]).data is Some,
        ensures
            self.collections@[j as int].locked ==> r is None,
            !self.collections@[j as int].locked ==> (r matches Some(s) && s.secrets().len()
                == self.collections@[j as int].items@.len() && forall|k: int| 0 <= k < s.secrets().len()
                ==> Some(#[trigger] s.secrets()[k]) == self.collections@[j as int].items_view()[k].data),
    {
        if self.collections[j].locked {
            None
        } else {
            Some(self.collections[j].get_secrets())
        }
    }

    /// The items file of the collection at `j` holding `items` (its secrets, serialized),
    /// authenticated with its `metadata` and paths.
    pub fn items_file_to_save(&self, j: usize, metadata: &str, items: &[u8]) -> (r: Result<Vec<u8>, TksError>)
        requires
            j < self.collections@.len(),
            encode_utf8(items_aad(metadata@, self.collections@[j as int].path@, self.collections@[j as int].items_path@)).len()
                <= c_int_max(),
            items@.len() <= c_int_max(),
            self.backend.secrets_handler.key().len() <= c_int_max(),
        ensures
            r matches Ok(f) ==> crate::storage::tks_gcm::seals_items(
                self.backend.secrets_handler.key(),
                encode_utf8(items_aad(metadata@, self.collections@[j as int].path@, self.collections@[j as int].items_path@)),
                items@,
                f@,
            ),
            r matches Ok(f) ==> f@.len() == 29 + items@.len(),
            r matches Err(e) ==> e == TksError::CryptoError,
    {
        let c = &self.collections[j];
        let aad = collection_items_aad(metadata, c.path.as_str(), c.items_path.as_str());
        self.backend.save_collection_items(aad.as_str(), items)
    }

    /// The last step of unlocking the storage once its key is available: unlocks, in turn,
    /// the collections at the positions of `payloads` with the content of their items files,
    /// and stops at the first that fails. Success reports the password prompt as not
    /// dismissed (`false`).
    pub fn unlock_collections(&mut self, payloads: &Vec<(usize, ItemsPayload)>) -> (r: Result<bool, TksError>)
        requires
            forall|a: int, b: int| 0 <= a < b < payloads@.len() ==> payloads@[a].0 < payloads@[b].0,
            forall|a: int| 0 <= a < payloads@.len() ==> payloads@[a].0 < old(self).collections@.len(),
        ensures
            final(self).backend == old(self).backend,
            final(self).collections@.len() == old(self).collections@.len(),
            forall|m: int| 0 <= m < old(self).collections@.len() && (forall|a: int| 0 <= a < payloads@.len() ==> payloads@[a].0 != m)
                ==> #[trigger] final(self).collections@[m] == old(self).collections@[m],
            r is Ok ==> r == Ok::<bool, TksError>(false) && forall|a: int| #![trigger payloads@[a]] 0 <= a < payloads@.len()
                ==> unlock_outcome(
                    old(self).collections@[payloads@[a].0 as int],
                    final(self).collections@[payloads@[a].0 as int],
                    payloads@[a].1,
                    Ok(()),
                ),
            r matches Err(e) ==> exists|i: int| #![trigger payloads@[i]] 0 <= i < payloads@.len() && {
                &&& forall|a: int| #![trigger payloads@[a]] 0 <= a < i ==> unlock_outcome(
                    old(self).collections@[payloads@[a].0 as int],
                    final(self).collections@[payloads@[a].0 as int],
                    payloads@[a].1,
                    Ok(()),
                )
                &&& unlock_outcome(
                    old(self).collections@[payloads@[i].0 as int],
                    final(self).collections@[payloads@[i].0 as int],
                    payloads@[i].1,
                    Err(e),
                )
                &&& forall|a: int| #![trigger payloads@[a]] i < a < payloads@.len() ==> final(self).collections@[payloads@[a].0 as int]
                    == old(self).collections@[payloads@[a].0 as int]
            },
    {
        let mut k: usize = 0;
        while k < payloads.len()
            invariant
                k <= payloads@.len(),
                forall|a: int, b: int| 0 <= a < b < payloads@.len() ==> payloads@[a].0 < payloads@[b].0,
                forall|a: int| 0 <= a < payloads@.len() ==> payloads@[a].0 < old(self).collections@.len(),
                self.backend == old(self).backend,
                self.collections@.len() == old(self).collections@.len(),
                forall|m: int| 0 <= m < old(self).collections@.len() && (forall|a: int| 0 <= a < k ==> payloads@[a].0 != m)
                    ==> #[trigger] self.collections@[m] == old(self).collections@[m],
                forall|a: int| #![trigger payloads@[a]] 0 <= a < k ==> unlock_outcome(
                    old(self).collections@[payloads@[a].0 as int],
                    self.collections@[payloads@[a].0 as int],
                    payloads@[a].1,
                    Ok(()),
                ),
            decreases payloads@.len() - k,
        {
            let j = payloads[k].0;
            let ghost before = self.collections@;
            assert(before[j as int] == old(self).collections@[j as int]) by {
                assert forall|a: int| 0 <= a < k implies payloads@[a].0 != j by {
                    assert(payloads@[a].0 < payloads@[k as int].0);
                }
            }
            let res = self.collections[j].unlock(&payloads[k].1);
            proof {
                assert forall|a: int| #![trigger payloads@[a]] 0 <= a < k implies self.collections@[payloads@[a].0 as int]
                    == before[payloads@[a].0 as int] by {
                    assert(payloads@[a].0 < payloads@[k as int].0);
                }
                assert forall|m: int| 0 <= m < old(self).collections@.len() && m != j implies #[trigger] self.collections@[m] == before[m] by {}
            }
            match res {
                Ok(()) => {},
                Err(e) => {
                    proof {
                        assert forall|a: int| #![trigger payloads@[a]] k < a < payloads@.len() implies self.collections@[payloads@[a].0 as int]
                            == old(self).collections@[payloads@[a].0 as int] by {
                            assert(payloads@[k as int].0 < payloads@[a].0);
                            assert forall|b: int| 0 <= b < k implies payloads@[b].0 != payloads@[a].0 by {
                                assert(payloads@[b].0 < payloads@[a].0);
                            }
                        }
                        assert forall|m: int| 0 <= m < old(self).collections@.len() && (forall|a: int| 0 <= a < payloads@.len()
                            ==> payloads@[a].0 != m) implies #[trigger] self.collections@[m] == old(self).collections@[m] by {
                            assert(payloads@[k as int].0 != m);
                        }
                        assert(payloads@[k as int] == payloads@[k as int]);
                    }
                    return Err(e);
                },
            }
            k = k + 1;
        }
        Ok(false)
    }

    /// The ids of the locked collections, in order: those that unlocking the storage unlocks.
    pub fn locked_collections(&self) -> (r: Vec<u128>)
        ensures
            r@ == self.collections@.filter(|c: Collection| c.locked).map_values(|c: Collection| c.uuid),
    {
        let mut r: Vec<u128> = Vec::new();
        let mut k: usize = 0;
        while k < self.collections.len()
            invariant
                k <= self.collections@.len(),
                r@ == self.collections@.take(k as int).filter(|c: Collection| c.locked).map_values(|c: Collection| c.uuid),
            decreases self.collections@.len() - k,
        {
            let ghost pre = self.collections@.take(k as int);
            let ghost next = self.collections@.take(k + 1);
            assert(next.drop_last() =~= pre);
            assert(next.last() == self.collections@[k as int]);
            reveal_with_fuel(Seq::filter, 1);
            if self.collections[k].locked {
                r.push(self.collections[k].uuid);
            }
            assert(r@ =~= next.filter(|c: Collection| c.locked).map_values(|c: Collection| c.uuid));
            k = k + 1;
        }
        assert(self.collections@.take(self.collections@.len() as int) =~= self.collections@);
        r
    }

    /// Opens the items file of collection `uuid` (given as its content, `None` when there
    /// is none), authenticated with its `metadata` and paths.
    pub fn decrypt_collection_items(&self, uuid: u128, metadata: &str, items_file: Option<&[u8]>) -> (r: Result<Vec<u8>, TksError>)
        requires
            forall|k: int| 0 <= k < self.collections@.len() && #[trigger] self.collections@[k].uuid == uuid ==> {
                &&& self.collections@[k].items_path@.len() > 0
                &&& encode_utf8(items_aad(metadata@, self.collections@[k].path@, self.collections@[k].items_path@)).len() <= c_int_max()
            },
            items_file matches Some(f) ==> f@.len() <= c_int_max(),
            self.backend.secrets_handler.key().len() <= c_int_max(),
        ensures
            (forall|k: int| 0 <= k < self.collections@.len() ==> self.collections@[k].uuid != uuid) ==> r
                == Err::<Vec<u8>, TksError>(TksError::NotFound(None)),
            items_file is None && (exists|k: int| 0 <= k < self.collections@.len() && self.collections@[k].uuid == uuid) ==> (
                r matches Ok(v) && v@.len() == 0),
            forall|j: int| #![trigger self.collections@[j]]
                0 <= j < self.collections@.len() && self.collections@[j].uuid == uuid
                && (forall|k: int| 0 <= k < j ==> self.collections@[k].uuid != uuid) ==> {
                    let aad = encode_utf8(items_aad(metadata@, self.collections@[j].path@, self.collections@[j].items_path@));
                    let key = self.backend.secrets_handler.key();
                    items_file matches Some(f) ==> match crate::storage::tks_gcm::items_file_plain(key, aad, f@) {
                        Some(p) => r matches Ok(v) && v@ == p,
                        None => r matches Err(e) && crate::storage::tks_gcm::items_file_error(f@, e),
                    }
                },
    {
        let j = match self.collection_position(uuid) {
            Some(j) => j,
            None => return Err(TksError::NotFound(None)),
        };
        let c = &self.collections[j];
        let aad = collection_items_aad(metadata, c.path.as_str(), c.items_path.as_str());
        self.backend.load_collection_items(items_file, aad.as_str())
    }

    /// The password dialog that unlocks collection `coll_uuid`.
    pub fn create_unlock_action(&mut self, coll_uuid: u128) -> (r: Result<PromptAction, TksError>)
        ensures
            *final(self) == *old(self),
            (forall|k: int| 0 <= k < old(self).collections@.len() ==> old(self).collections@[k].uuid != coll_uuid) ==> r
                == Err::<PromptAction, TksError>(TksError::NotFound(None)),
            (exists|k: int| 0 <= k < old(self).collections@.len() && old(self).collections@[k].uuid == coll_uuid) ==> r is Ok,
    {
        let j = match self.collection_position(coll_uuid) {
            Some(j) => j,
            None => return Err(TksError::NotFound(None)),
        };
        let name = self.collections[j].name.clone();
        self.backend.create_unlock_action(coll_uuid, name.as_str())
    }
}

impl Collection {
    /// The ids of the items that match `query` (see [`matches_query`]), in item order.
    pub fn matching_items(&self, query: &Attributes) -> (r: Vec<ItemId>)
        ensures
            r@ == self.items_view().filter(|i: ItemView| matches_query(i, query@)).map_values(|i: ItemView| i.id),
    {
        let mut r: Vec<ItemId> = Vec::new();
        let mut k: usize = 0;
        while k < self.items.len()
            invariant
                k <= self.items@.len(),
                r@ == self.items_view().take(k as int).filter(|i: ItemView| matches_query(i, query@)).map_values(
                    |i: ItemView| i.id,
                ),
            decreases self.items@.len() - k,
        {
            let ghost pre = self.items_view().take(k as int);
            let ghost next = self.items_view().take(k + 1);
            assert(next.drop_last() =~= pre);
            assert(next.last() == self.items@[k as int]@);
            reveal_with_fuel(Seq::filter, 1);
            if self.items[k].matches_query(query) {
                r.push(self.items[k].id);
                assert(r@ =~= next.filter(|i: ItemView| matches_query(i, query@)).map_values(|i: ItemView| i.id));
            } else {
                assert(r@ =~= next.filter(|i: ItemView| matches_query(i, query@)).map_values(|i: ItemView| i.id));
            }
            k = k + 1;
        }
        assert(self.items_view().take(self.items@.len() as int) =~= self.items_view());
        r
    }
}

impl Storage {
    fn search_in(&self, query: &Attributes, locked: bool) -> (r: Vec<ItemId>)
        ensures
            r@ == search_ids(self.collections@, query@, locked),
    {
        let mut r: Vec<ItemId> = Vec::new();
        let mut k: usize = 0;
        while k < self.collections.len()
            invariant
                k <= self.collections@.len(),
                r@ == search_ids(self.collections@.take(k as int), query@, locked),
            decreases self.collections@.len() - k,
        {
            let ghost next = self.collections@.take(k + 1);
            assert(next.drop_last() =~= self.collections@.take(k as int));
            assert(next.last() == self.collections@[k as int]);
            if self.collections[k].locked == locked {
                let found = self.collections[k].matching_items(query);
                let mut m: usize = 0;
                let ghost start = r@;
                while m < found.len()
                    invariant
                        m <= found@.len(),
                        r@ == start + found@.take(m as int),
                    decreases found@.len() - m,
                {
                    r.push(found[m]);
                    m = m + 1;
                    assert(r@ =~= start + found@.take(m as int));
                }
                assert(found@.take(found@.len() as int) =~= found@);
            } else {
                assert(r@ =~= search_ids(next, query@, locked));
            }
            k = k + 1;
        }
        assert(self.collections@.take(self.collections@.len() as int) =~= self.collections@);
        r
    }

    /// The items that match `attributes` (see [`matches_query`]): first those of
    /// unlocked collections, then those of locked ones.
    pub fn search_items(&self, attributes: &Attributes) -> (r: (Vec<ItemId>, Vec<ItemId>))
        ensures
            r.0@ == search_ids(self.collections@, attributes@, false),
            r.1@ == search_ids(self.collections@, attributes@, true),
    {
        let locked = self.search_in(attributes, true);
        let unlocked = self.search_in(attributes, false);
        (unlocked, locked)
    }

    /// Locks the collections whose name is in `names`, returning their uuids in order.
    pub fn lock_collections(&mut self, names: &Vec<String>) -> (r: Vec<(u128, bool)>)
        ensures
            final(self).backend == old(self).backend,
            final(self).collections@.len() == old(self).collections@.len(),
            r@ == named_collections(old(self).collections@, texts(names@)),
            forall|k: int| 0 <= k < old(self).collections@.len() ==> {
                let c = #[trigger] final(self).collections@[k];
                let o = old(self).collections@[k];
                if texts(names@).contains(o.name@) {
                    c.locked && c.uuid == o.uuid && c.name == o.name
                        && c.items_view() == o.items_view().map_values(|i: ItemView| crate::storage::collection::locked_view(i))
                } else {
                    c == o
                }
            },
    {
        let mut r: Vec<(u128, bool)> = Vec::new();
        let mut k: usize = 0;
        while k < self.collections.len()
            invariant
                k <= self.collections@.len(),
                self.backend == old(self).backend,
                self.collections@.len() == old(self).collections@.len(),
                r@ == named_collections(old(self).collections@.take(k as int), texts(names@)),
                forall|m: int| k <= m < old(self).collections@.len() ==> #[trigger] self.collections@[m] == old(self).collections@[m],
                forall|m: int| 0 <= m < k ==> {
                    let c = #[trigger] self.collections@[m];
                    let o = old(self).collections@[m];
                    if texts(names@).contains(o.name@) {
                        c.locked && c.uuid == o.uuid && c.name == o.name
                            && c.items_view() == o.items_view().map_values(|i: ItemView| crate::storage::collection::locked_view(i))
                    } else {
                        c == o
                    }
                },
            decreases self.collections@.len() - k,
        {
            let ghost next = old(self).collections@.take(k + 1);
            assert(next.drop_last() =~= old(self).collections@.take(k as int));
            assert(next.last() == old(self).collections@[k as int]);
            if text_in(names, self.collections[k].name.as_str()) {
                let _ = self.collections[k].lock();
                r.push((self.collections[k].uuid, self.collections[k].default));
                assert(r@ =~= named_collections(next, texts(names@)));
            } else {
                assert(r@ =~= named_collections(next, texts(names@)));
            }
            k = k + 1;
        }
        assert(old(self).collections@.take(old(self).collections@.len() as int) =~= old(self).collections@);
        r
    }
}
} // verus!
