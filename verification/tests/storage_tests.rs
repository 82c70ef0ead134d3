use tks::error::TksError;
use tks::storage::attributes::Attributes;
use tks::storage::collection::{Collection, CollectionSecrets, Item, ItemData, ItemsPayload};
use tks::storage::password_store::PasswordStoreBackend;
use tks::storage::tks_gcm::{
    new_salt, KeyDerivationStep, TksGcmBackend, TksGcmPasswordSecretHandlerState,
};
use tks::storage::{join_path, Storage, StorageBackendType};
use tks::tks_dbus::session_impl::Session;

fn attrs(pairs: &[(&str, &str)]) -> Attributes {
    let mut a = Attributes::new();
    for (k, v) in pairs {
        a.insert(k.to_string(), v.to_string());
    }
    a
}

fn plain_session() -> Session {
    Session::new(0, "plain".to_string())
}

fn backend() -> TksGcmBackend {
    TksGcmBackend::new("/var/lib/tks", vec![7u8; 256], Some(vec![1u8; 64])).unwrap()
}

fn unlocked_collection(name: &str) -> Collection {
    let mut c = Collection::new(name, "/meta/c", "/items/c", 100).unwrap();
    c.unlock(&ItemsPayload::Missing).unwrap();
    c
}

#[test]
fn path_join_follows_pathbuf_push() {
    assert_eq!(join_path("/a/b", "c"), "/a/b/c");
    assert_eq!(join_path("/a/b/", "c"), "/a/b/c");
    assert_eq!(join_path("", "c"), "c");
    assert_eq!(join_path("/a", "/abs"), "/abs");
}

#[test]
fn new_collection_is_locked_and_empty() {
    let c = Collection::new("default", "/m/default", "/i/default", 42).unwrap();
    assert!(c.default);
    assert!(c.locked);
    assert_eq!(c.name, "default");
    assert_eq!(c.items.len(), 0);
    assert_eq!(c.created, 42);
    assert_eq!(c.modified, 42);
    assert_ne!(c.uuid, 0);
    let other = Collection::new("work", "/m/work", "/i/work", 1).unwrap();
    assert!(!other.default);
}

#[test]
fn creating_items_in_a_locked_collection_is_refused() {
    let mut c = Collection::new("work", "/m", "/i", 1).unwrap();
    let s = plain_session();
    let r = c.create_item("x", attrs(&[]), (&s, vec![], b"secret".to_vec(), "text/plain".to_string()), false, 2);
    assert!(matches!(r, Err(TksError::PermissionDenied)));
    assert_eq!(c.items.len(), 0);
}

#[test]
fn creating_items_with_duplicates_and_replacement() {
    let mut c = unlocked_collection("work");
    let s = plain_session();
    let id = c
        .create_item("mail", attrs(&[("user", "a")]), (&s, vec![], b"pw".to_vec(), "text/plain".to_string()), false, 5)
        .unwrap();
    assert_eq!(id.collection_uuid, c.uuid);
    assert_eq!(c.items.len(), 1);
    assert_eq!(c.items[0].label, "mail");
    assert_eq!(c.items[0].created, 5);
    assert_eq!(c.items[0].data.as_ref().unwrap().data, b"pw".to_vec());

    // the same secret under the same attributes is a duplicate
    let dup = c.create_item("mail2", attrs(&[("user", "a")]), (&s, vec![], b"pw".to_vec(), "text/plain".to_string()), false, 6);
    assert!(matches!(dup, Err(TksError::Duplicate)));
    assert_eq!(c.items.len(), 1);

    // unless it may replace the item
    let id2 = c
        .create_item("mail2", attrs(&[("user", "a")]), (&s, vec![], b"pw".to_vec(), "text/plain".to_string()), true, 7)
        .unwrap();
    assert_eq!(c.items.len(), 1);
    assert_eq!(c.items[0].label, "mail2");
    assert_eq!(c.items[0].id.uuid, id2.uuid);

    // another secret is another item
    c.create_item("other", attrs(&[("user", "a")]), (&s, vec![], b"pw2".to_vec(), "text/plain".to_string()), false, 8)
        .unwrap();
    assert_eq!(c.items.len(), 2);
}

#[test]
fn get_and_delete_items() {
    let mut c = unlocked_collection("work");
    let s = plain_session();
    let a = c.create_item("a", attrs(&[]), (&s, vec![], b"1".to_vec(), "t".to_string()), false, 1).unwrap();
    let b = c.create_item("b", attrs(&[]), (&s, vec![], b"2".to_vec(), "t".to_string()), false, 1).unwrap();
    assert_eq!(c.get_item(a.uuid).unwrap().label, "a");
    assert!(matches!(c.get_item(12345), Err(TksError::NotFound(None))));
    c.get_item_mut(b.uuid).unwrap().label = "bee".to_string();
    assert_eq!(c.get_item(b.uuid).unwrap().label, "bee");
    let removed = c.delete_item(a.uuid).unwrap();
    assert_eq!(removed.label, "a");
    assert_eq!(c.items.len(), 1);
    assert_eq!(c.items[0].label, "bee");
    assert!(matches!(c.delete_item(a.uuid), Err(TksError::NotFound(None))));
    c.lock().unwrap();
    assert!(matches!(c.delete_item(b.uuid), Err(TksError::PermissionDenied)));
}

#[test]
fn lock_unlock_round_trip_law() {
    let mut c = unlocked_collection("work");
    let s = plain_session();
    c.create_item("a", attrs(&[("k", "v")]), (&s, vec![], b"one".to_vec(), "t1".to_string()), false, 1).unwrap();
    c.create_item("b", attrs(&[]), (&s, vec![], b"two".to_vec(), "t2".to_string()), false, 1).unwrap();
    let secrets = c.get_secrets();
    assert_eq!(secrets.items.len(), 2);
    c.lock().unwrap();
    assert!(c.locked);
    assert!(c.items.iter().all(|i| i.data.is_none()));
    c.unlock(&ItemsPayload::Parsed(secrets)).unwrap();
    assert!(!c.locked);
    assert_eq!(c.items[0].data.as_ref().unwrap().data, b"one".to_vec());
    assert_eq!(c.items[0].data.as_ref().unwrap().content_type, "t1");
    assert_eq!(c.items[1].data.as_ref().unwrap().data, b"two".to_vec());
}

#[test]
fn unlocking_with_missing_or_bad_secrets() {
    let mut c = unlocked_collection("work");
    let s = plain_session();
    let id = c.create_item("a", attrs(&[]), (&s, vec![], b"one".to_vec(), "t".to_string()), false, 1).unwrap();
    c.lock().unwrap();
    let r = c.unlock(&ItemsPayload::Missing);
    assert!(matches!(r, Err(TksError::SerializationError(ref m)) if m == "No items file found"));
    assert!(c.locked);
    let r = c.unlock(&ItemsPayload::Malformed("expected value".to_string()));
    assert!(matches!(r, Err(TksError::SerializationError(ref m)) if m == "expected value"));
    let r = c.unlock(&ItemsPayload::Parsed(CollectionSecrets::new()));
    assert!(matches!(r, Err(TksError::ItemNotFound)));
    assert!(c.locked);
    let mut secrets = CollectionSecrets::new();
    secrets.items.push(ItemData { uuid: id.uuid, data: b"one".to_vec(), content_type: "t".to_string() });
    c.unlock(&ItemsPayload::Parsed(secrets)).unwrap();
    assert!(!c.locked);
}

#[test]
fn item_secrets_in_a_plain_session() {
    let mut c = unlocked_collection("work");
    let s = plain_session();
    c.create_item("a", attrs(&[]), (&s, vec![], b"one".to_vec(), "t".to_string()), false, 1).unwrap();
    let (path, iv, secret, ct) = c.items[0].get_secret(&s).unwrap();
    assert_eq!(path, "");
    assert!(iv.is_empty());
    assert_eq!(secret, b"one".to_vec());
    assert_eq!(ct, "t");
    c.items[0].set_secret(&s, vec![], &b"new".to_vec(), "text/other".to_string()).unwrap();
    assert_eq!(c.items[0].data.as_ref().unwrap().data, b"new".to_vec());
    assert_eq!(c.items[0].data.as_ref().unwrap().content_type, "text/other");
    let odd = Session::new(1, "rot13".to_string());
    assert!(matches!(
        c.items[0].set_secret(&odd, vec![], &b"x".to_vec(), "t".to_string()),
        Err(TksError::ParameterError)
    ));
    c.lock().unwrap();
    assert!(matches!(c.items[0].get_secret(&s), Err(TksError::IOError(ref m)) if m == "Item is locked"));
}

#[test]
fn items_with_exact_attributes() {
    let mut c = unlocked_collection("work");
    let s = plain_session();
    let a = c.create_item("a", attrs(&[("k", "v")]), (&s, vec![], b"1".to_vec(), "t".to_string()), false, 1).unwrap();
    c.create_item("b", attrs(&[("k", "v"), ("x", "y")]), (&s, vec![], b"2".to_vec(), "t".to_string()), false, 1).unwrap();
    let found = c.items_with_attributes(&attrs(&[("k", "v")]));
    assert_eq!(found.len(), 1);
    assert_eq!(found[0].uuid, a.uuid);
}

#[test]
fn storage_collections_and_aliases() {
    let b = backend();
    assert_eq!(b.metadata_path, "/var/lib/tks");
    assert!(b.is_collection_file("work"));
    assert!(!b.is_collection_file("salt"));
    assert!(!b.is_collection_file("commissioned"));
    assert_eq!(b.items_path, "/var/lib/tks/items");
    assert_eq!(b.get_kind(), StorageBackendType::TksGcm);
    let mut st = Storage::new(b, vec![]);
    assert!(matches!(st.read_alias("default"), Err(TksError::NotFound(Some(ref m))) if m == "Alias 'default' not found"));
    let created = st.ensure_default_collection(10).unwrap();
    assert!(created.is_some());
    assert_eq!(st.read_alias("default").unwrap(), "default");
    assert_eq!(st.collections[0].path, "/var/lib/tks/default");
    assert_eq!(st.collections[0].items_path, "/var/lib/tks/items/default");
    // a second call finds it
    assert_eq!(st.ensure_default_collection(11).unwrap(), None);
    assert_eq!(st.collections.len(), 1);

    let uuid = st.create_collection("work", "", &Attributes::new(), 12).unwrap();
    assert_eq!(st.collections.len(), 2);
    assert_eq!(st.collections[1].uuid, uuid);
    assert!(st.collections[1].aliases.is_none());
    assert_eq!(st.save_collection(uuid, 99).unwrap(), 1);
    assert_eq!(st.collections[1].modified, 99);
    assert!(matches!(st.save_collection(1, 99), Err(TksError::NotFound(None))));
}

#[test]
fn storage_sets_the_items_path_of_loaded_collections() {
    let c = Collection::new("work", "/old", "/old-items", 1).unwrap();
    let loaded = Storage::load_collection(c, "/var/lib/tks/metadata/work");
    assert!(loaded.locked);
    assert_eq!(loaded.path, "/var/lib/tks/metadata/work");
    let st = Storage::new(backend(), vec![loaded]);
    assert_eq!(st.collections[0].items_path, "/var/lib/tks/items/work");
}

#[test]
fn storage_item_access_and_search() {
    let mut st = Storage::new(backend(), vec![unlocked_collection("work")]);
    let cu = st.collections[0].uuid;
    let s = plain_session();
    let id = st.collections[0]
        .create_item("mail", attrs(&[("user", "alice"), ("service", "imap")]), (&s, vec![], b"pw".to_vec(), "t".to_string()), false, 1)
        .unwrap();
    assert_eq!(st.locate_item(cu, id.uuid).unwrap(), (0, 0));
    assert!(matches!(st.locate_item(cu, 5), Err(TksError::NotFound(None))));
    assert!(matches!(st.locate_item(5, id.uuid), Err(TksError::IOError(ref m)) if m.starts_with("Collection '")));
    let label = st.with_item(cu, id.uuid, |i: &Item| Ok(i.label.clone())).unwrap();
    assert_eq!(label, "mail");
    st.modify_item(cu, id.uuid, |i: &mut Item| { i.label = "post".to_string(); Ok(()) }, 77).unwrap();
    assert_eq!(st.collections[0].items[0].label, "post");
    assert_eq!(st.collections[0].items[0].modified, 77);
    let n = st.with_collection(cu, |c: &Collection| Ok(c.items.len())).unwrap();
    assert_eq!(n, 1);
    assert!(matches!(st.with_collection(5, |c: &Collection| Ok(c.items.len())), Err(TksError::IOError(_))));
    st.modify_collection(cu, |c: &mut Collection| { c.name = "job".to_string(); Ok(()) }, 88).unwrap();
    assert_eq!(st.collections[0].name, "job");
    assert_eq!(st.collections[0].modified, 88);
    assert!(matches!(st.modify_collection(5, |_c: &mut Collection| Ok(()), 1), Err(TksError::NotFound(Some(_)))));

    // an item matches when it has every searched attribute with the searched value
    let (unlocked, locked) = st.search_items(&attrs(&[("user", "alice"), ("service", "imap")]));
    assert_eq!(unlocked.len(), 1);
    assert_eq!(locked.len(), 0);
    let (unlocked, _) = st.search_items(&attrs(&[("user", "imap")]));
    assert_eq!(unlocked.len(), 0);
    let (unlocked, _) = st.search_items(&attrs(&[("user", "bob")]));
    assert_eq!(unlocked.len(), 0);
    let (unlocked, _) = st.search_items(&attrs(&[]));
    assert_eq!(unlocked.len(), 1);

    let locked_ids = st.lock_collections(&vec!["job".to_string()]);
    assert_eq!(locked_ids, vec![(cu, false)]);
    assert!(st.collections[0].locked);
    let (unlocked, locked) = st.search_items(&attrs(&[("user", "alice")]));
    assert_eq!(unlocked.len(), 0);
    assert_eq!(locked.len(), 1);
}

#[test]
fn backend_seals_and_opens_items() {
    let mut b = TksGcmBackend::new("/var/lib/tks", vec![3u8; 256], None).unwrap();
    assert_eq!(b.secrets_handler.state, TksGcmPasswordSecretHandlerState::NotCommissioned);
    assert_eq!(b.secrets_handler.commissioned_data.len(), 256);
    let step = b.get_secrets_handler().derive_key_from_password(b"correct horse").unwrap();
    let sealed_commission = match step {
        KeyDerivationStep::WriteCommissionedData(f) => f,
        _ => panic!("a new password is commissioned"),
    };
    let file = b.save_collection_items("metadata", b"{\"items\":[]}").unwrap();
    assert_eq!(file[0], 1);
    let opened = b.load_collection_items(Some(&file), "metadata").unwrap();
    assert_eq!(opened, b"{\"items\":[]}".to_vec());
    assert!(matches!(b.load_collection_items(Some(&file), "other metadata"), Err(TksError::CryptoError)));
    assert!(b.load_collection_items(None, "metadata").unwrap().is_empty());
    assert!(matches!(b.load_collection_items(Some(&[]), "m"), Err(TksError::SerializationError(ref m)) if m == "Corrupted file"));
    assert!(matches!(b.load_collection_items(Some(&[2u8; 40]), "m"), Err(TksError::SerializationError(ref m)) if m == "Unknown file version"));
    assert!(matches!(b.load_collection_items(Some(&[1u8; 10]), "m"), Err(TksError::SerializationError(ref m)) if m == "Corrupted file"));

    // a restart with the same password unlocks the store
    let mut again = TksGcmBackend::new("/var/lib/tks", vec![3u8; 256], Some(sealed_commission.clone())).unwrap();
    assert_eq!(again.secrets_handler.state, TksGcmPasswordSecretHandlerState::Locked);
    assert!(again.is_locked());
    let step = again.get_secrets_handler().derive_key_from_password(b"correct horse").unwrap();
    assert!(matches!(step, KeyDerivationStep::CheckCommissionedData));
    again.get_secrets_handler().check_commissioned_data(&sealed_commission).unwrap();
    assert_eq!(again.secrets_handler.state, TksGcmPasswordSecretHandlerState::KeyAvailable);
    assert!(!again.is_locked());
    assert_eq!(again.load_collection_items(Some(&file), "metadata").unwrap(), b"{\"items\":[]}".to_vec());

    // a wrong password does not
    let mut wrong = TksGcmBackend::new("/var/lib/tks", vec![3u8; 256], Some(sealed_commission.clone())).unwrap();
    wrong.get_secrets_handler().derive_key_from_password(b"wrong").unwrap();
    assert!(wrong.get_secrets_handler().check_commissioned_data(&sealed_commission).is_err());
    assert_eq!(wrong.secrets_handler.state, TksGcmPasswordSecretHandlerState::Locked);
    assert!(wrong.is_locked());
}

#[test]
fn backend_paths_and_unlock_check() {
    let b = backend();
    assert_eq!(
        b.new_metadata_path("work").unwrap(),
        ("/var/lib/tks/work".to_string(), "/var/lib/tks/items/work".to_string())
    );
    assert_eq!(b.collection_items_path("work").unwrap(), "/var/lib/tks/items/work");
    assert_eq!(b.unlock_items("/var/lib/tks/items/work").unwrap(), "");
    assert!(matches!(
        b.unlock_items("/var/lib/tks/itemsX/work"),
        Err(TksError::InternalError(ref m)) if m == "Items path not within the correct directory"
    ));
    assert!(b.unlock_items("/elsewhere").is_err());
}

#[test]
fn salts_are_kept_or_made() {
    let (s, created) = new_salt(Some(vec![1, 2, 3])).unwrap();
    assert_eq!(s, vec![1, 2, 3]);
    assert!(!created);
    let (s, created) = new_salt(None).unwrap();
    assert_eq!(s.len(), 256);
    assert!(created);
}

#[test]
fn unlock_prompt_texts() {
    let mut fresh = TksGcmBackend::new("/v", vec![0u8; 8], None).unwrap();
    let a = fresh.create_unlock_action(1, "work").unwrap();
    match a.dialog {
        tks::tks_dbus::prompt_impl::PromptDialog::PassphraseInput(d, p, c, m, _) => {
            assert_eq!(d, "Define the TKS unlock password, so we can store the new collection 'work'");
            assert_eq!(p, "Password");
            assert_eq!(c.as_deref(), Some("Confirm password"));
            assert_eq!(m.as_deref(), Some("Passwords do not match"));
        }
        _ => panic!("a passphrase dialog"),
    }
    let mut known = backend();
    let a = known.create_unlock_action(1, "work").unwrap();
    match a.dialog {
        tks::tks_dbus::prompt_impl::PromptDialog::PassphraseInput(d, _, c, m, _) => {
            assert_eq!(d, "Enter the TKS unlock password, so we can unlock the collection 'work'");
            assert!(c.is_none());
            assert!(m.is_none());
        }
        _ => panic!("a passphrase dialog"),
    }
}

#[test]
fn password_store_backend() {
    let mut b = PasswordStoreBackend::new(Some("/home/u/.password-store".to_string()), "/home/u");
    assert_eq!(b.get_kind(), StorageBackendType::PasswordStore);
    b.metadata_path = Some("/home/u/.local/share/io.linux-tks/password-store/metadata".to_string());
    assert_eq!(
        b.get_metadata_paths().unwrap(),
        vec!["/home/u/.local/share/io.linux-tks/password-store/metadata".to_string()]
    );
    assert!(matches!(
        b.new_metadata_path("x"),
        Err(TksError::NotSupported(ref m)) if m == "password-store backend does not support creating new collections"
    ));
}

#[test]
fn test_password_store_metadata_setup() {
    let mut b = PasswordStoreBackend::new(Some("/home/u/.password-store".to_string()), "/home/u");
    let c = b.create_or_update_metadata("/d/password-store", false, 42).unwrap().unwrap();
    assert_eq!(b.metadata_path, Some(join_path("/d/password-store", "metadata")));
    assert_eq!(c.name, "default");
    assert!(c.default);
    assert_eq!(c.path, join_path(&join_path("/d/password-store", "metadata"), "default"));
    assert_eq!(c.items_path, "/home/u/.password-store");
    assert!(c.locked);
    assert_eq!(c.created, 42);
    let home = PasswordStoreBackend::new(None, "/home/u");
    assert_eq!(home.path, join_path("/home/u", ".password-store"));
    let mut b2 = PasswordStoreBackend::new(Some("/p".to_string()), "/home/u");
    assert!(b2.create_or_update_metadata("/d", true, 1).unwrap().is_none());
    assert_eq!(b2.metadata_path, Some(join_path("/d", "metadata")));
}

#[test]
fn saving_writes_items_only_for_unlocked_collections() {
    let mut b = TksGcmBackend::new("/var/lib/tks", vec![3u8; 256], None).unwrap();
    b.get_secrets_handler().derive_key_from_password(b"pw").unwrap();
    let mut st = Storage::new(b, vec![unlocked_collection("work")]);
    let s = plain_session();
    st.collections[0]
        .create_item("mail", attrs(&[("user", "alice")]), (&s, vec![], b"secret".to_vec(), "t".to_string()), false, 1)
        .unwrap();
    let secrets = st.secrets_to_save(0).unwrap();
    assert_eq!(secrets.items.len(), 1);
    assert_eq!(secrets.items[0].data, b"secret".to_vec());
    let file = st.items_file_to_save(0, "meta", b"serialized secrets").unwrap();
    let uuid = st.collections[0].uuid;
    assert_eq!(st.decrypt_collection_items(uuid, "meta", Some(&file)).unwrap(), b"serialized secrets".to_vec());
    assert!(matches!(st.decrypt_collection_items(uuid, "other", Some(&file)), Err(TksError::CryptoError)));
    assert!(st.locked_collections().is_empty());
    st.collections[0].lock().unwrap();
    assert!(st.secrets_to_save(0).is_none());
    assert_eq!(st.locked_collections(), vec![uuid]);
}

#[test]
fn loaded_collections_hold_no_secrets() {
    let c = unlocked_collection("work");
    let mut c = c;
    let s = plain_session();
    c.create_item("mail", attrs(&[]), (&s, vec![], b"secret".to_vec(), "t".to_string()), false, 1).unwrap();
    let loaded = Storage::load_collection(c, "/m/work");
    assert!(loaded.locked);
    assert!(loaded.items[0].data.is_none());
    assert_eq!(loaded.items[0].id.collection_uuid, loaded.uuid);
}

#[test]
fn starting_the_storage_makes_the_default_collection() {
    let (mut st, created) = Storage::open(backend(), vec![], 5).unwrap();
    let uuid = created.unwrap();
    assert_eq!(st.collections.len(), 1);
    assert_eq!(st.collections[0].uuid, uuid);
    assert_eq!(st.read_alias("default").unwrap(), "default");
    let c = st.collections.into_iter().next().unwrap();
    let (again, created) = Storage::open(backend(), vec![c], 6).unwrap();
    assert!(created.is_none());
    assert_eq!(again.collections.len(), 1);
}

#[test]
fn unlocking_collections_reports_not_dismissed() {
    let s = plain_session();
    let mut full = unlocked_collection("work");
    let id = full
        .create_item("mail", attrs(&[]), (&s, vec![], b"pw".to_vec(), "t".to_string()), false, 1)
        .unwrap();
    let secrets = full.get_secrets();
    full.lock().unwrap();
    let mut empty = unlocked_collection("empty");
    empty.lock().unwrap();
    let mut st = Storage::new(backend(), vec![empty, full]);
    assert_eq!(st.unlock_collections(&vec![(0, ItemsPayload::Missing), (1, ItemsPayload::Parsed(secrets))]).unwrap(), false);
    assert!(!st.collections[0].locked);
    assert!(!st.collections[1].locked);
    assert_eq!(st.collections[1].items[0].data.as_ref().unwrap().data, b"pw".to_vec());
    assert_eq!(st.collections[1].items[0].id.uuid, id.uuid);

    st.collections[1].lock().unwrap();
    let r = st.unlock_collections(&vec![(1, ItemsPayload::Missing)]);
    assert!(matches!(r, Err(TksError::SerializationError(ref m)) if m == "No items file found"));
    assert!(st.collections[1].locked);
}
