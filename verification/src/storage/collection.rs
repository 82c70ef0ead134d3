//! Collections and their items: the data the service keeps for its clients.

use vstd::prelude::*;
use crate::crypto::{c_int_max, random_bytes};
use crate::error::{is_serialization_error, TksError};
use crate::ids::new_uuid;
use crate::storage::attributes::Attributes;
use crate::text::{from_literal, same_text};
use crate::tks_dbus::session_impl::{copy_bytes, Session};

verus! {

/// The name of the default collection.
pub open spec fn default_name() -> Seq<char> {
    "default"@
}

/// The secret of an item, as stored in the collection's items file.
#[derive(Debug)]
pub struct ItemData {
    pub uuid: u128,
    pub data: Vec<u8>,
    pub content_type: String,
}

/// The content of an [`ItemData`].
pub struct ItemDataView {
    pub uuid: u128,
    pub data: Seq<u8>,
    pub content_type: Seq<char>,
}

impl View for ItemData {
    type V = ItemDataView;

    open spec fn view(&self) -> ItemDataView {
        ItemDataView { uuid: self.uuid, data: self.data@, content_type: self.content_type@ }
    }
}

impl Clone for ItemData {
    fn clone(&self) -> (r: ItemData)
        ensures
            r@ == self@,
    {
        ItemData { uuid: self.uuid, data: copy_bytes(self.data.as_slice()), content_type: self.content_type.clone() }
    }
}

/// Identifies an item: its own UUID and that of its collection.
#[derive(Debug, Clone, Copy, PartialEq, Eq, Structural, Default)]
pub struct ItemId {
    pub uuid: u128,
    pub collection_uuid: u128,
}

/// An item of a collection. While the collection is locked, `data` is `None`.
#[derive(Debug)]
pub struct Item {
    pub label: String,
    pub created: u64,
    pub modified: u64,
    pub attributes: Attributes,
    pub id: ItemId,
    pub data: Option<ItemData>,
}

/// The content of an [`Item`].
pub struct ItemView {
    pub label: Seq<char>,
    pub created: u64,
    pub modified: u64,
    pub attributes: Map<Seq<char>, Seq<char>>,
    pub id: ItemId,
    pub data: Option<ItemDataView>,
}

impl View for Item {
    type V = ItemView;

    open spec fn view(&self) -> ItemView {
        ItemView {
            label: self.label@,
            created: self.created,
            modified: self.modified,
            attributes: self.attributes@,
            id: self.id,
            data: match self.data {
                Some(d) => Some(d@),
                None => None,
            },
        }
    }
}

/// The secrets of all items of a collection, as kept in its items file.
#[derive(Debug)]
pub struct CollectionSecrets {
    pub items: Vec<ItemData>,
}

impl CollectionSecrets {
    pub open spec fn secrets(&self) -> Seq<ItemDataView> {
        self.items@.map_values(|d: ItemData| d@)
    }

    pub fn new() -> (r: CollectionSecrets)
        ensures
            r.secrets() == Seq::<ItemDataView>::empty(),
    {
        let r = CollectionSecrets { items: Vec::new() };
        assert(r.secrets() =~= Seq::<ItemDataView>::empty());
        r
    }
}

/// What was found in a collection's items file, once its bytes were read as JSON.
#[derive(Debug)]
pub enum ItemsPayload {
    /// There were no bytes.
    Missing,
    /// The bytes did not hold item secrets; the parser's message.
    Malformed(String),
    /// The item secrets.
    Parsed(CollectionSecrets),
}

/// A collection of items, with its metadata.
#[derive(Debug)]
pub struct Collection {
    pub schema_version: u8,
    pub uuid: u128,
    pub default: bool,
    pub name: String,
    pub items: Vec<Item>,
    pub aliases: Option<Vec<String>>,
    pub created: u64,
    pub modified: u64,
    pub path: String,
    pub items_path: String,
    pub locked: bool,
}

/// `i` is an item holding `data` of `content_type` under the attributes `attributes`.
pub open spec fn is_duplicate(
    i: ItemView,
    attributes: Map<Seq<char>, Seq<char>>,
    data: Seq<u8>,
    content_type: Seq<char>,
) -> bool {
    &&& i.attributes == attributes
    &&& i.data matches Some(d)
    &&& d.content_type == content_type
    &&& d.data == data
}

/// The view of optional aliases.
pub open spec fn aliases_view(a: Option<Vec<String>>) -> Option<Seq<Seq<char>>> {
    match a {
        Some(v) => Some(v@.map_values(|s: String| s@)),
        None => None,
    }
}

/// Whether two byte slices hold the same bytes.
pub fn same_bytes(a: &[u8], b: &[u8]) -> (r: bool)
    ensures
        r == (a@ == b@),
{
    if a.len() != b.len() {
        return false;
    }
    let mut i: usize = 0;
    while i < a.len()
        invariant
            a@.len() == b@.len(),
            i <= a@.len(),
            forall|j: int| 0 <= j < i ==> a@[j] == b@[j],
        decreases a@.len() - i,
    {
        if a[i] != b[i] {
            return false;
        }
        i = i + 1;
    }
    assert(a@ =~= b@);
    true
}

/// `k` is the position of the first item whose id is `uuid`.
pub open spec fn is_first_item(items: Seq<Item>, uuid: u128, k: int) -> bool {
    0 <= k < items.len() && items[k].id.uuid == uuid && forall|m: int| 0 <= m < k ==> items[m].id.uuid != uuid
}

/// The position of the first item whose id is `uuid`, if any.
pub open spec fn item_index(items: Seq<Item>, uuid: u128) -> Option<int> {
    if exists|k: int| is_first_item(items, uuid, k) {
        Some(choose|k: int| is_first_item(items, uuid, k))
    } else {
        None
    }
}

pub proof fn lemma_item_index(items: Seq<Item>, uuid: u128, k: int)
    requires
        is_first_item(items, uuid, k),
    ensures
        item_index(items, uuid) == Some(k),
{
    let i = choose|i: int| is_first_item(items, uuid, i);
    assert(is_first_item(items, uuid, i));
    if i < k {
        assert(items[i].id.uuid != uuid);
    } else if i > k {
        assert(items[k].id.uuid != uuid);
    }
}

/// `n` is what unlocking `o` with the content `payload` of its items file leaves, with
/// result `r`: an unlocked or empty collection is unlocked as it is; otherwise the secrets
/// are handed to the items, all or nothing.
pub open spec fn unlock_outcome(o: Collection, n: Collection, payload: ItemsPayload, r: Result<(), TksError>) -> bool {
    &&& (n.schema_version == o.schema_version)
    &&& (n.uuid == o.uuid)
    &&& (n.default == o.default)
    &&& (n.name == o.name)
    &&& (n.aliases == o.aliases)
    &&& (n.created == o.created)
    &&& (n.modified == o.modified)
    &&& (n.path == o.path)
    &&& (n.items_path == o.items_path)
    &&& (n.items@.len() == o.items@.len())
    &&& (!o.locked || o.items@.len() == 0 ==> r is Ok && !n.locked && n.items == o.items)
    &&& (o.locked && o.items@.len() > 0 ==> match payload {
                ItemsPayload::Missing => is_serialization_error(r, "No items file found"@) && n == o,
                ItemsPayload::Malformed(m) => is_serialization_error(r, m@) && n == o,
                ItemsPayload::Parsed(secrets) => {
                    let s = secrets.secrets();
                    let all = forall|k: int| 0 <= k < o.items@.len()
                        ==> has_secret(s, #[trigger] o.items_view()[k].id.uuid);
                    &&& r is Ok <==> all
                    &&& r is Ok ==> !n.locked && forall|k: int| 0 <= k < o.items@.len()
                        ==> #[trigger] n.items_view()[k] == with_data(o.items_view()[k],
                            first_secret(s, o.items_view()[k].id.uuid))
                    &&& r is Err ==> r == Err::<(), TksError>(TksError::ItemNotFound) && n.locked
                        && exists|j: int| #![trigger o.items_view()[j]]
                            0 <= j < o.items@.len()
                            && !has_secret(s, o.items_view()[j].id.uuid)
                            && (forall|k: int| 0 <= k < j ==> has_secret(s, #[trigger] o.items_view()[k].id.uuid))
                            && (forall|k: int| 0 <= k < j ==> #[trigger] n.items_view()[k] == with_data(
                                o.items_view()[k], first_secret(s, o.items_view()[k].id.uuid)))
                            && (forall|k: int| j <= k < o.items@.len() ==> #[trigger] n.items_view()[k]
                                == o.items_view()[k])
                },
            })
}

impl Collection {
    /// The items, as values.
    pub open spec fn items_view(&self) -> Seq<ItemView> {
        self.items@.map_values(|i: Item| i@)
    }

    /// Everything but the items is the same in `self` and `other`.
    pub open spec fn same_metadata(&self, other: &Collection) -> bool {
        &&& self.schema_version == other.schema_version
        &&& self.uuid == other.uuid
        &&& self.default == other.default
        &&& self.name@ == other.name@
        &&& aliases_view(self.aliases) == aliases_view(other.aliases)
        &&& self.created == other.created
        &&& self.modified == other.modified
        &&& self.path@ == other.path@
        &&& self.items_path@ == other.items_path@
        &&& self.locked == other.locked
    }

    /// A new, empty and locked collection called `name`, whose metadata and items live at
    /// `path` and `items_path`, created at time `ts` (seconds since the Unix epoch).
    pub fn new(name: &str, path: &str, items_path: &str, ts: u64) -> (r: Result<Collection, TksError>)
        ensures
            r matches Ok(c) ==> {
                &&& c.uuid != 0
                &&& c.schema_version == 1
                &&& c.default == (name@ == default_name())
                &&& c.name@ == name@
                &&& c.path@ == path@
                &&& c.items_path@ == items_path@
                &&& c.items@.len() == 0
                &&& c.aliases is None
                &&& c.locked
                &&& c.created == ts
                &&& c.modified == ts
            },
            r is Err ==> r == Err::<Collection, TksError>(TksError::CryptoError),
    {
        // Twelve random bytes are drawn and not kept: a failing random source fails the
        // creation.
        match random_bytes(12) {
            Ok(_) => {},
            Err(e) => return Err(TksError::from_openssl(e)),
        }
        proof { reveal_strlit("default"); }
        let default = same_text(name, "default");
        let uuid = new_uuid();
        proof { crate::ids::lemma_v4_not_nil(uuid); }
        Ok(Collection {
            uuid,
            default,
            schema_version: 1,
            name: from_literal(name),
            path: from_literal(path),
            items_path: from_literal(items_path),
            items: Vec::new(),
            aliases: None,
            locked: true,
            created: ts,
            modified: ts,
        })
    }

    /// The position of the first item whose id is `uuid`.
    pub fn item_position(&self, uuid: u128) -> (r: Option<usize>)
        ensures
            r matches Some(j) ==> j < self.items@.len() && self.items@[j as int].id.uuid == uuid
                && forall|k: int| 0 <= k < j ==> self.items@[k].id.uuid != uuid,
            r is None ==> forall|k: int| 0 <= k < self.items@.len() ==> self.items@[k].id.uuid != uuid,
            match r {
                Some(j) => item_index(self.items@, uuid) == Some(j as int),
                None => item_index(self.items@, uuid) is None,
            },
    {
        let mut i: usize = 0;
        while i < self.items.len()
            invariant
                i <= self.items@.len(),
                forall|k: int| 0 <= k < i ==> self.items@[k].id.uuid != uuid,
            decreases self.items@.len() - i,
        {
            if self.items[i].id.uuid == uuid {
                proof { lemma_item_index(self.items@, uuid, i as int); }
                return Some(i);
            }
            i = i + 1;
        }
        None
    }

    /// The first item whose id is `uuid`.
    pub fn get_item(&self, uuid: u128) -> (r: Result<&Item, TksError>)
        ensures
            r matches Ok(item) ==> exists|j: int| 0 <= j < self.items@.len() && *item == self.items@[j]
                && item.id.uuid == uuid && forall|k: int| 0 <= k < j ==> self.items@[k].id.uuid != uuid,
            r is Err ==> r == Err::<&Item, TksError>(TksError::NotFound(None))
                && forall|k: int| 0 <= k < self.items@.len() ==> self.items@[k].id.uuid != uuid,
    {
        match self.item_position(uuid) {
            Some(j) => Ok(&self.items[j]),
            None => Err(TksError::NotFound(None)),
        }
    }

    /// The first item whose id is `uuid`, to change in place.
    pub fn get_item_mut(&mut self, uuid: u128) -> (r: Result<&mut Item, TksError>)
        ensures
            match item_index(old(self).items@, uuid) {
                None => r == Err::<&mut Item, TksError>(TksError::NotFound(None)) && *final(self) == *old(self),
                Some(j) => r matches Ok(item) && *item == old(self).items@[j] && final(self).items@ == old(
                    self,
                ).items@.update(j, *final(item)) && final(self).same_metadata(&*old(self)),
            },
    {
        match self.item_position(uuid) {
            Some(j) => Ok(&mut self.items[j]),
            None => Err(TksError::NotFound(None)),
        }
    }

    /// Removes the item whose id is `uuid`, putting the last item in its place.
    pub fn delete_item(&mut self, uuid: u128) -> (r: Result<Item, TksError>)
        ensures
            old(self).locked ==> r == Err::<Item, TksError>(TksError::PermissionDenied) && *final(self) == *old(self),
            !old(self).locked ==> match r {
                Ok(item) => exists|j: int| #![trigger old(self).items@[j]]
                    0 <= j < old(self).items@.len()
                    && item == old(self).items@[j]
                    && item.id.uuid == uuid
                    && (forall|k: int| 0 <= k < j ==> old(self).items@[k].id.uuid != uuid)
                    && final(self).items@ == old(self).items@.update(j, old(self).items@.last()).drop_last(),
                Err(e) => e == TksError::NotFound(None) && *final(self) == *old(self)
                    && forall|k: int| 0 <= k < old(self).items@.len() ==> old(self).items@[k].id.uuid != uuid,
            },
            final(self).schema_version == old(self).schema_version,
            final(self).uuid == old(self).uuid,
            final(self).default == old(self).default,
            final(self).name == old(self).name,
            final(self).aliases == old(self).aliases,
            final(self).created == old(self).created,
            final(self).modified == old(self).modified,
            final(self).path == old(self).path,
            final(self).items_path == old(self).items_path,
            final(self).locked == old(self).locked,
    {
        if self.locked {
            return Err(TksError::PermissionDenied);
        }
        match self.item_position(uuid) {
            Some(j) => {
                let older = self.items.swap_remove(j);
                Ok(older)
            },
            None => Err(TksError::NotFound(None)),
        }
    }
}


/// The item that `create_item` makes.
pub open spec fn new_item_view(
    label: Seq<char>,
    attributes: Map<Seq<char>, Seq<char>>,
    id: ItemId,
    data: Seq<u8>,
    content_type: Seq<char>,
    ts: u64,
) -> ItemView {
    ItemView {
        label,
        created: ts,
        modified: ts,
        attributes,
        id,
        data: Some(ItemDataView { uuid: id.uuid, data, content_type }),
    }
}

/// `new` is `old` with an item `id` added for `data` under `attributes`: either in place of
/// the first item that holds the same secret under the same attributes (when `replace`
/// allows it), or at the end when there is no such item.
pub open spec fn item_added(
    new: &Collection,
    old: &Collection,
    label: Seq<char>,
    attributes: Map<Seq<char>, Seq<char>>,
    id: ItemId,
    data: Seq<u8>,
    content_type: Seq<char>,
    replace: bool,
    ts: u64,
) -> bool {
    let item = new_item_view(label, attributes, id, data, content_type, ts);
    &&& id.collection_uuid == old.uuid
    &&& new.same_metadata(old)
    &&& ((exists|j: int|
        #![trigger old.items_view()[j]]
        0 <= j < old.items@.len() && is_duplicate(old.items_view()[j], attributes, data, content_type)
            && (forall|k: int| 0 <= k < j ==> !is_duplicate(old.items_view()[k], attributes, data, content_type))
            && replace && new.items_view() == old.items_view().update(j, item))
        || ((forall|k: int| 0 <= k < old.items@.len() ==> !is_duplicate(old.items_view()[k], attributes, data, content_type))
            && new.items_view() == old.items_view().push(item)))
}

/// Law: a secret stored under attributes that no item of the collection has is never a
/// duplicate: creating the item neither fails with `Duplicate` nor replaces an item, whatever
/// the secret and `replace`; the new item is appended after all the others, which stay.
pub proof fn lemma_new_attributes_are_appended(
    new: &Collection,
    old: &Collection,
    label: Seq<char>,
    attributes: Map<Seq<char>, Seq<char>>,
    id: ItemId,
    data: Seq<u8>,
    content_type: Seq<char>,
    replace: bool,
    ts: u64,
)
    requires
        forall|k: int| 0 <= k < old.items@.len() ==> (#[trigger] old.items_view()[k]).attributes != attributes,
    ensures
        !has_duplicate(old.items_view(), attributes, data, content_type),
        item_added(new, old, label, attributes, id, data, content_type, replace, ts) ==> {
            &&& new.items@.len() == old.items@.len() + 1
            &&& forall|k: int| 0 <= k < old.items@.len() ==> #[trigger] new.items_view()[k] == old.items_view()[k]
            &&& new.items_view()[old.items@.len() as int].attributes == attributes
            &&& new.items_view()[old.items@.len() as int].id == id
            &&& new.items_view()[old.items@.len() as int].data == Some(ItemDataView { uuid: id.uuid, data, content_type })
        },
{
    let items = old.items_view();
    assert forall|j: int| 0 <= j < items.len() implies !#[trigger] is_duplicate(items[j], attributes, data, content_type) by {
        assert(items[j].attributes != attributes);
    }
    if item_added(new, old, label, attributes, id, data, content_type, replace, ts) {
        assert(new.items_view().len() == new.items@.len());
        assert(items.len() == old.items@.len());
    }
}

/// Some item of `items` holds `data` of `content_type` under `attributes`.
pub open spec fn has_duplicate(
    items: Seq<ItemView>,
    attributes: Map<Seq<char>, Seq<char>>,
    data: Seq<u8>,
    content_type: Seq<char>,
) -> bool {
    exists|j: int| 0 <= j < items.len() && #[trigger] is_duplicate(items[j], attributes, data, content_type)
}

impl Item {
    fn is_duplicate_of(&self, attributes: &Attributes, data: &Vec<u8>, content_type: &String) -> (r: bool)
        ensures
            r == is_duplicate(self@, attributes@, data@, content_type@),
    {
        if !self.attributes.same_as(attributes) {
            return false;
        }
        match &self.data {
            Some(d) => same_text(d.content_type.as_str(), content_type.as_str()) && same_bytes(
                d.data.as_slice(),
                data.as_slice(),
            ),
            None => false,
        }
    }
}

impl Collection {
    /// Adds an item labelled `label` with `attributes` to this unlocked collection, holding
    /// the secret that the client sent encrypted in `secret` (session, IV, encrypted value,
    /// content type) at time `ts`. An item that holds the same secret under the same
    /// attributes is replaced when `replace` is set; otherwise the addition is refused.
    pub fn create_item(
        &mut self,
        label: &str,
        attributes: Attributes,
        secret: (&Session, Vec<u8>, Vec<u8>, String),
        replace: bool,
        ts: u64,
    ) -> (r: Result<ItemId, TksError>)
        requires
            secret.1@.len() <= c_int_max(),
            secret.2@.len() <= c_int_max(),
            secret.0.key() matches Some(k) ==> k.len() <= c_int_max(),
        ensures
            old(self).locked ==> r == Err::<ItemId, TksError>(TksError::PermissionDenied) && *final(self) == *old(self),
            !old(self).locked ==> match secret.0.decrypted(secret.1@, secret.2@) {
                None => r == Err::<ItemId, TksError>(TksError::CryptoError) && *final(self) == *old(self),
                Some(data) => {
                    &&& (r is Ok <==> (replace || !has_duplicate(old(self).items_view(), attributes@, data, secret.3@)))
                    &&& match r {
                        Ok(id) => item_added(final(self), old(self), label@, attributes@, id, data, secret.3@, replace, ts),
                        Err(e) => e == TksError::Duplicate && *final(self) == *old(self),
                    }
                },
            },
    {
        if self.locked {
            return Err(TksError::PermissionDenied);
        }
        let (session, iv, value, content_type) = secret;
        let uuid = new_uuid();
        let data = match session.decrypt(&iv, &value) {
            Ok(data) => data,
            Err(_) => return Err(TksError::CryptoError),
        };
        let mut index: usize = 0;
        let mut found = false;
        while !found && index < self.items.len()
            invariant
                index <= self.items@.len(),
                found ==> index < self.items@.len() && is_duplicate(self.items_view()[index as int], attributes@, data@, content_type@),
                forall|k: int| 0 <= k < index ==> !is_duplicate(self.items_view()[k], attributes@, data@, content_type@),
            decreases self.items@.len() - index + (if found { 0int } else { 1int }),
        {
            if self.items[index].is_duplicate_of(&attributes, &data, &content_type) {
                found = true;
            } else {
                index = index + 1;
            }
        }
        proof {
            if !found {
                assert(forall|k: int| 0 <= k < self.items@.len() ==> !is_duplicate(self.items_view()[k], attributes@, data@, content_type@));
            }
        }
        let id = ItemId { collection_uuid: self.uuid, uuid };
        let ghost item_view = new_item_view(label@, attributes@, id, data@, content_type@, ts);
        let ghost old_items = self.items_view();
        let item = Item {
            label: from_literal(label),
            created: ts,
            modified: ts,
            data: Some(ItemData { uuid, data, content_type }),
            id,
            attributes,
        };
        assert(item@ == item_view);
        if found {
            if replace {
                self.items.set(index, item);
                assert(self.items_view() =~= old_items.update(index as int, item_view));
            } else {
                return Err(TksError::Duplicate);
            }
        } else {
            self.items.push(item);
            assert(self.items_view() =~= old_items.push(item_view));
        }
        Ok(id)
    }
}

/// `item` with its secret dropped.
pub open spec fn locked_view(item: ItemView) -> ItemView {
    ItemView { data: None, ..item }
}

/// `item` holding the secret `d`.
pub open spec fn with_data(item: ItemView, d: ItemDataView) -> ItemView {
    ItemView { data: Some(d), ..item }
}

/// Some secret of `secrets` belongs to the item `uuid`.
pub open spec fn has_secret(secrets: Seq<ItemDataView>, uuid: u128) -> bool {
    exists|k: int| 0 <= k < secrets.len() && #[trigger] secrets[k].uuid == uuid
}

/// The first secret of `secrets` that belongs to the item `uuid`.
pub open spec fn first_secret(secrets: Seq<ItemDataView>, uuid: u128) -> ItemDataView {
    secrets[choose|k: int|
        0 <= k < secrets.len() && secrets[k].uuid == uuid && forall|m: int| 0 <= m < k ==> secrets[m].uuid != uuid]
}

proof fn lemma_first_secret(secrets: Seq<ItemDataView>, uuid: u128, k: int)
    requires
        0 <= k < secrets.len(),
        secrets[k].uuid == uuid,
        forall|m: int| 0 <= m < k ==> secrets[m].uuid != uuid,
    ensures
        first_secret(secrets, uuid) == secrets[k],
{
    let c = choose|c: int|
        0 <= c < secrets.len() && secrets[c].uuid == uuid && forall|m: int| 0 <= m < c ==> secrets[m].uuid != uuid;
    assert(0 <= c < secrets.len() && secrets[c].uuid == uuid);
    if c < k {
        assert(secrets[c].uuid != uuid);
    } else if c > k {
        assert(secrets[k].uuid != uuid);
    }
}

impl CollectionSecrets {
    /// The position of the first secret of item `uuid`.
    fn find(&self, uuid: u128) -> (r: Option<usize>)
        ensures
            r matches Some(k) ==> k < self.items@.len() && self.items@[k as int].uuid == uuid
                && first_secret(self.secrets(), uuid) == self.items@[k as int]@,
            r is None ==> !has_secret(self.secrets(), uuid),
    {
        let mut k: usize = 0;
        while k < self.items.len()
            invariant
                k <= self.items@.len(),
                forall|m: int| 0 <= m < k ==> self.items@[m].uuid != uuid,
            decreases self.items@.len() - k,
        {
            if self.items[k].uuid == uuid {
                proof {
                    assert forall|m: int| 0 <= m < k implies self.secrets()[m].uuid != uuid by {
                        assert(self.secrets()[m] == self.items@[m]@);
                    }
                    lemma_first_secret(self.secrets(), uuid, k as int);
                }
                return Some(k);
            }
            k = k + 1;
        }
        proof {
            assert forall|m: int| 0 <= m < self.secrets().len() implies self.secrets()[m].uuid != uuid by {
                assert(self.secrets()[m] == self.items@[m]@);
            }
        }
        None
    }
}

impl Collection {
    /// The secrets of all items; the collection must be unlocked, so that every item holds
    /// its secret.
    pub fn get_secrets(&self) -> (r: CollectionSecrets)
        requires
            forall|k: int| 0 <= k < self.items@.len() ==> (#[trigger] self.items@[k]).data is Some,
        ensures
            r.secrets().len() == self.items@.len(),
            forall|k: int| 0 <= k < self.items@.len() ==> Some(#[trigger] r.secrets()[k]) == self.items_view()[k].data,
    {
        let mut items: Vec<ItemData> = Vec::new();
        let mut k: usize = 0;
        while k < self.items.len()
            invariant
                k <= self.items@.len(),
                forall|j: int| 0 <= j < self.items@.len() ==> (#[trigger] self.items@[j]).data is Some,
                items@.len() == k,
                forall|j: int| 0 <= j < k ==> Some(#[trigger] items@[j]@) == self.items_view()[j].data,
            decreases self.items@.len() - k,
        {
            let d = self.items[k].data.as_ref().unwrap().clone();
            items.push(d);
            k = k + 1;
        }
        let r = CollectionSecrets { items };
        assert forall|j: int| 0 <= j < self.items@.len() implies Some(#[trigger] r.secrets()[j]) == self.items_view()[j].data by {
            assert(r.secrets()[j] == items@[j]@);
        }
        r
    }

    /// Locks the collection: every item drops its secret.
    pub fn lock(&mut self) -> (r: Result<(), TksError>)
        ensures
            r is Ok,
            final(self).locked,
            final(self).items_view() == old(self).items_view().map_values(|i: ItemView| locked_view(i)),
            final(self).schema_version == old(self).schema_version,
            final(self).uuid == old(self).uuid,
            final(self).default == old(self).default,
            final(self).name == old(self).name,
            final(self).aliases == old(self).aliases,
            final(self).created == old(self).created,
            final(self).modified == old(self).modified,
            final(self).path == old(self).path,
            final(self).items_path == old(self).items_path,
    {
        self.locked = true;
        let mut k: usize = 0;
        while k < self.items.len()
            invariant
                k <= self.items@.len(),
                self.items@.len() == old(self).items@.len(),
                self.locked,
                self.schema_version == old(self).schema_version,
                self.uuid == old(self).uuid,
                self.default == old(self).default,
                self.name == old(self).name,
                self.aliases == old(self).aliases,
                self.created == old(self).created,
                self.modified == old(self).modified,
                self.path == old(self).path,
                self.items_path == old(self).items_path,
                forall|j: int| 0 <= j < k ==> #[trigger] self.items_view()[j] == locked_view(old(self).items_view()[j]),
                forall|j: int| k <= j < self.items@.len() ==> #[trigger] self.items_view()[j] == old(self).items_view()[j],
            decreases self.items@.len() - k,
        {
            let ghost before = self.items@;
            let ghost before_view = self.items_view();
            self.items[k].data = None;
            proof {
                assert(self.items@.len() == before.len());
                assert forall|j: int| 0 <= j < self.items@.len() implies #[trigger] self.items_view()[j]
                    == (if j == k { locked_view(before_view[j]) } else { before_view[j] }) by {
                    if j != k {
                        assert(self.items@[j] == before[j]);
                    } else {
                        assert(self.items@[k as int].label == before[k as int].label);
                        assert(self.items@[k as int].attributes == before[k as int].attributes);
                    }
                }
            }
            k = k + 1;
        }
        assert(self.items_view() =~= old(self).items_view().map_values(|i: ItemView| locked_view(i)));
        Ok(())
    }
}

impl Collection {
    /// Unlocks the collection with the secrets read from its items file: every item gets
    /// the first secret filed under its id. An unlocked or empty collection needs no
    /// secrets. When some item has no secret, the items file is out of step with the
    /// collection: the unlock stops there and the collection stays locked.
    pub fn unlock(&mut self, payload: &ItemsPayload) -> (r: Result<(), TksError>)
        ensures
            unlock_outcome(*old(self), *final(self), *payload, r),
    {
        if !self.locked || self.items.len() == 0 {
            self.locked = false;
            return Ok(());
        }
        let secrets = match payload {
            ItemsPayload::Missing => {
                return Err(TksError::SerializationError(from_literal("No items file found")));
            },
            ItemsPayload::Malformed(m) => {
                return Err(TksError::SerializationError(m.clone()));
            },
            ItemsPayload::Parsed(secrets) => secrets,
        };
        let ghost s = secrets.secrets();
        assert(payload matches ItemsPayload::Parsed(x) && x.secrets() == s);
        let mut k: usize = 0;
        while k < self.items.len()
            invariant
                s == secrets.secrets(),
                payload matches ItemsPayload::Parsed(x) && x.secrets() == s,
                old(self).locked,
                old(self).items@.len() > 0,
                k <= self.items@.len(),
                self.items@.len() == old(self).items@.len(),
                self.locked,
                self.schema_version == old(self).schema_version,
                self.uuid == old(self).uuid,
                self.default == old(self).default,
                self.name == old(self).name,
                self.aliases == old(self).aliases,
                self.created == old(self).created,
                self.modified == old(self).modified,
                self.path == old(self).path,
                self.items_path == old(self).items_path,
                forall|j: int| 0 <= j < k ==> has_secret(s, #[trigger] old(self).items_view()[j].id.uuid),
                forall|j: int| 0 <= j < k ==> #[trigger] self.items_view()[j] == with_data(
                    old(self).items_view()[j], first_secret(s, old(self).items_view()[j].id.uuid)),
                forall|j: int| k <= j < self.items@.len() ==> #[trigger] self.items_view()[j] == old(self).items_view()[j],
            decreases self.items@.len() - k,
        {
            let uuid = self.items[k].id.uuid;
            assert(self.items_view()[k as int] == self.items@[k as int]@);
            assert(uuid == old(self).items_view()[k as int].id.uuid);
            match secrets.find(uuid) {
                None => {
                    return Err(TksError::ItemNotFound);
                },
                Some(p) => {
                    let d = secrets.items[p].clone();
                    let ghost before = self.items@;
                    let ghost before_view = self.items_view();
                    assert(has_secret(s, uuid)) by {
                        assert(s[p as int] == secrets.items@[p as int]@);
                    }
                    self.items[k].data = Some(d);
                    proof {
                        assert forall|j: int| 0 <= j < self.items@.len() implies #[trigger] self.items_view()[j]
                            == (if j == k { with_data(before_view[j], first_secret(s, uuid)) } else { before_view[j] }) by {
                            if j != k {
                                assert(self.items@[j] == before[j]);
                            } else {
                                assert(self.items@[k as int].label == before[k as int].label);
                                assert(self.items@[k as int].attributes == before[k as int].attributes);
                            }
                        }
                    }
                },
            }
            k = k + 1;
        }
        let ghost v = self.items_view();
        self.locked = false;
        assert(self.items_view() == v);
        Ok(())
    }
}

/// Law: locking a collection and unlocking it with the secrets it had before restores
/// every item. This holds when each item's secret is filed under the item's own id and
/// no two items share an id, as `create_item` and `set_secret` keep it.
pub proof fn lemma_lock_unlock_round_trip(items: Seq<ItemView>, secrets: Seq<ItemDataView>)
    requires
        secrets.len() == items.len(),
        forall|k: int| 0 <= k < items.len() ==> Some(#[trigger] secrets[k]) == items[k].data,
        forall|k: int| 0 <= k < items.len() ==> ((#[trigger] items[k]).data matches Some(d) && d.uuid == items[k].id.uuid),
        forall|j: int, k: int| 0 <= j < items.len() && 0 <= k < items.len() && j != k ==> (#[trigger] items[j]).id.uuid
            != (#[trigger] items[k]).id.uuid,
    ensures
        forall|k: int| 0 <= k < items.len() ==> has_secret(secrets, #[trigger] items[k].id.uuid)
            && with_data(locked_view(items[k]), first_secret(secrets, items[k].id.uuid)) == items[k],
{
    assert forall|k: int| 0 <= k < items.len() implies has_secret(secrets, #[trigger] items[k].id.uuid)
        && with_data(locked_view(items[k]), first_secret(secrets, items[k].id.uuid)) == items[k] by {
        let u = items[k].id.uuid;
        assert(Some(secrets[k]) == items[k].data);
        assert(secrets[k].uuid == u);
        assert forall|m: int| 0 <= m < k implies secrets[m].uuid != u by {
            assert(Some(secrets[m]) == items[m].data);
            assert(items[m].data matches Some(d) && d.uuid == items[m].id.uuid);
            assert(items[m].id.uuid != items[k].id.uuid);
        }
        lemma_first_secret(secrets, u, k);
    }
}

impl Item {
    /// The item's secret, encrypted for the client in `session`: an empty path (filled in
    /// by the caller), the IV, the encrypted secret and its content type.
    pub fn get_secret(&self, session: &Session) -> (r: Result<(String, Vec<u8>, Vec<u8>, String), TksError>)
        requires
            session.is_dh_aes() ==> session.aes_key_bytes is Some,
            session.key() matches Some(k) ==> k.len() <= c_int_max(),
            self.data matches Some(d) ==> d.data@.len() <= c_int_max(),
        ensures
            self.data is None ==> (r matches Err(TksError::IOError(m)) && m@ == "Item is locked"@),
            self.data matches Some(d) ==> match r {
                Ok((p, iv, secret, ct)) => p@.len() == 0 && ct@ == d.content_type@ && session.encrypts_to(
                    d.data@,
                    iv@,
                    secret@,
                ),
                Err(TksError::IOError(m)) => m@ == "Data cannot be prepared"@,
                Err(_) => false,
            },
            self.data is Some && session.is_plain() ==> r is Ok,
    {
        let data = match &self.data {
            Some(d) => d,
            None => return Err(TksError::IOError(from_literal("Item is locked"))),
        };
        match session.encrypt(&data.data) {
            Ok((iv, secret)) => Ok((String::new(), iv, secret, data.content_type.clone())),
            Err(_) => Err(TksError::IOError(from_literal("Data cannot be prepared"))),
        }
    }

    /// Replaces the item's secret with the one the client sent encrypted in `session`.
    pub fn set_secret(
        &mut self,
        session: &Session,
        parameters: Vec<u8>,
        value: &Vec<u8>,
        content_type: String,
    ) -> (r: Result<(), TksError>)
        requires
            parameters@.len() <= c_int_max(),
            value@.len() <= c_int_max(),
            session.key() matches Some(k) ==> k.len() <= c_int_max(),
        ensures
            r is Err ==> *final(self) == *old(self),
            r is Ok ==> (final(self).data matches Some(d) && d.uuid == old(self).id.uuid && d.content_type@ == content_type@
                && session.decrypts_to(parameters@, value@, d.data@)),
            r is Ok ==> final(self).label == old(self).label && final(self).created == old(self).created
                && final(self).modified == old(self).modified && final(self).attributes == old(self).attributes
                && final(self).id == old(self).id,
            r is Ok <==> session.decrypted(parameters@, value@) is Some,
            session.is_dh_aes() && session.decrypted(parameters@, value@) is None ==> r == Err::<(), TksError>(
                TksError::CryptoError,
            ),
            !session.is_plain() && !session.is_dh_aes() ==> r == Err::<(), TksError>(TksError::ParameterError),
    {
        let data = session.decrypt(&parameters, value)?;
        self.data = Some(ItemData { uuid: self.id.uuid, data, content_type });
        Ok(())
    }
}

impl Collection {
    /// The ids of the items whose attributes are exactly `attributes`, in item order.
    pub fn items_with_attributes(&self, attributes: &Attributes) -> (r: Vec<ItemId>)
        ensures
            r@ == self.items_view().filter(|i: ItemView| i.attributes == attributes@).map_values(|i: ItemView| i.id),
    {
        let mut r: Vec<ItemId> = Vec::new();
        let mut k: usize = 0;
        while k < self.items.len()
            invariant
                k <= self.items@.len(),
                r@ == self.items_view().take(k as int).filter(|i: ItemView| i.attributes == attributes@).map_values(
                    |i: ItemView| i.id,
                ),
            decreases self.items@.len() - k,
        {
            let ghost pre = self.items_view().take(k as int);
            let ghost next = self.items_view().take(k + 1);
            assert(next.drop_last() =~= pre);
            assert(next.last() == self.items@[k as int]@);
            reveal_with_fuel(Seq::filter, 1);
            if self.items[k].attributes.same_as(attributes) {
                r.push(self.items[k].id);
                assert(r@ =~= next.filter(|i: ItemView| i.attributes == attributes@).map_values(|i: ItemView| i.id));
            } else {
                assert(r@ =~= next.filter(|i: ItemView| i.attributes == attributes@).map_values(|i: ItemView| i.id));
            }
            k = k + 1;
        }
        assert(self.items_view().take(self.items@.len() as int) =~= self.items_view());
        r
    }
}
} // verus!
