use tks::storage::attributes::Attributes;
use tks::storage::collection::{Collection, ItemsPayload};
use tks::storage::tks_gcm::TksGcmBackend;
use tks::storage::Storage;
use tks::tks_dbus::collection_impl::{CollectionHandles, CollectionImpl};
use tks::tks_dbus::item_impl::{ItemHandles, ItemImpl};
use tks::tks_dbus::service_impl::ServiceImpl;
use tks::tks_dbus::session_impl::{Session, SessionManager};
use tks::tks_dbus::{DBusHandle, DBusHandlePath};

fn attrs(pairs: &[(&str, &str)]) -> Attributes {
    let mut a = Attributes::new();
    for (k, v) in pairs {
        a.insert(k.to_string(), v.to_string());
    }
    a
}

fn started_storage() -> Storage {
    let b = TksGcmBackend::new("/var/lib/tks", vec![7u8; 16], Some(vec![1u8; 64])).unwrap();
    let mut st = Storage::new(b, vec![]);
    st.ensure_default_collection(1).unwrap();
    st
}

fn label_property(label: &str) -> Vec<(String, Option<String>)> {
    vec![("org.freedesktop.Secret.Collection.Label".to_string(), Some(label.to_string()))]
}

#[test]
fn test_open_session() {
    let mut svc = ServiceImpl::new();
    let mut sm = SessionManager::new();
    let (out, path) = svc.open_session(&mut sm, "plain".to_string(), None).unwrap();
    assert!(out.is_none());
    let id = path.strip_prefix("/org/freedesktop/secrets/session/").unwrap();
    assert!(!id.is_empty() && id.chars().all(|c| c.is_ascii_digit()));
}

#[test]
fn open_session_errors() {
    let mut svc = ServiceImpl::new();
    let mut sm = SessionManager::new();
    assert_eq!(svc.open_session(&mut sm, "rot13".to_string(), None), Err("Parameter error".to_string()));
    assert_eq!(svc.open_session(&mut sm, "plain".to_string(), Some(&vec![1u8])), Err("Parameter error".to_string()));
    let (_, path) = svc.open_session(&mut sm, "plain".to_string(), None).unwrap();
    assert_eq!(path, "/org/freedesktop/secrets/session/2");
}

#[test]
fn test_read_alias() {
    let mut svc = ServiceImpl::new();
    let mut st = started_storage();
    let path = svc.read_alias(&mut st, "default".to_string()).unwrap();
    assert!(path != "/");
    assert_eq!(path, "/org/freedesktop/secrets/collection/default");
    assert_eq!(svc.read_alias(&mut st, "nope".to_string()).unwrap(), "/");
}

#[test]
#[should_panic]
fn test_create_collection_error_no_label() {
    let mut svc = ServiceImpl::new();
    let mut st = started_storage();
    let mut handles = CollectionHandles::new();
    svc.create_collection(&mut st, &mut handles, &vec![], "collection1".to_string(), 2).unwrap();
}

#[test]
fn test_create_collection_no_prompt() {
    let mut svc = ServiceImpl::new();
    let mut st = started_storage();
    let mut handles = CollectionHandles::new();
    let (coll_path, prompt_path) =
        svc.create_collection(&mut st, &mut handles, &label_property("collection1"), "".to_string(), 2).unwrap();
    assert!(prompt_path == "/");
    assert!(!coll_path.is_empty());
    let c = st.collections.last().unwrap();
    assert_eq!(c.name, "collection1");
    let storage_path = "/var/lib/tks";
    assert_eq!(st.backend.path, storage_path);
    assert_eq!(c.path, format!("{}/{}", storage_path, "collection1"));
    assert_eq!(coll_path, tks::tks_dbus::make_collection_path(c.uuid));
}

#[test]
fn create_collection_checks_its_properties() {
    let mut svc = ServiceImpl::new();
    let mut st = started_storage();
    let mut handles = CollectionHandles::new();
    assert_eq!(
        svc.create_collection(&mut st, &mut handles, &vec![], "x".to_string(), 2),
        Err("Error creating collection: No label specified".to_string())
    );
    let props = vec![("org.freedesktop.Secret.Collection.Label".to_string(), None)];
    assert_eq!(
        svc.create_collection(&mut st, &mut handles, &props, "x".to_string(), 2),
        Err("Error creating collection: Property org.freedesktop.Secret.Collection.Label should be a string".to_string())
    );
    let (path, prompt) = svc.create_collection(&mut st, &mut handles, &vec![], "default".to_string(), 2).unwrap();
    assert_eq!(path, "/org/freedesktop/secrets/collection/default");
    assert_eq!(prompt, "/");
    assert_eq!(st.collections.len(), 1);

    svc.create_collection(&mut st, &mut handles, &label_property("work"), "job".to_string(), 3).unwrap();
    assert_eq!(st.collections.len(), 2);
    // properties other than the label are ignored
    let props = vec![
        ("x.extra".to_string(), None),
        ("org.freedesktop.Secret.Collection.Label".to_string(), Some("c2".to_string())),
    ];
    let (_, prompt) = svc.create_collection(&mut st, &mut handles, &props, "".to_string(), 4).unwrap();
    assert_eq!(prompt, "/");
    assert_eq!(st.collections.len(), 3);
    assert_eq!(st.collections[2].name, "c2");
    assert_eq!(st.read_alias("job").unwrap(), "work");
    assert_eq!(svc.set_alias("a".to_string(), "/".to_string()), Err("Error setting alias: Not implemented".to_string()));
}

#[test]
fn collections_lock_unlock_and_search() {
    let mut svc = ServiceImpl::new();
    let mut st = started_storage();
    let mut handles = CollectionHandles::new();
    ServiceImpl::register_collections(&st, &mut handles).unwrap();
    let paths = svc.collections(&handles).unwrap();
    assert_eq!(paths, vec!["/org/freedesktop/secrets/aliases/default".to_string()]);
    match svc.get_dbus_handle().path() {
        DBusHandlePath::SinglePath(p) => assert_eq!(p, "/org/freedesktop/secrets"),
        _ => panic!("one path"),
    }

    // put an item into the default collection
    st.collections[0].unlock(&ItemsPayload::Missing).unwrap();
    let s = Session::new(0, "plain".to_string());
    let id = st.collections[0]
        .create_item("mail", attrs(&[("user", "alice")]), (&s, vec![], b"pw".to_vec(), "t".to_string()), false, 2)
        .unwrap();
    let mut items = ItemHandles::new();
    let (unlocked, locked) = svc.search_items(&st, &mut items, &attrs(&[("user", "alice")])).unwrap();
    assert_eq!(unlocked, vec![tks::tks_dbus::make_item_path(id.collection_uuid, id.uuid)]);
    assert!(locked.is_empty());

    let mut sm = SessionManager::new();
    sm.new_session("plain".to_string(), None).unwrap();
    let secrets = svc
        .get_secrets(&st, &sm, &items, &unlocked, "/org/freedesktop/secrets/session/0".to_string(), Some(":1.1".to_string()))
        .unwrap();
    assert_eq!(secrets.len(), 1);
    assert_eq!(secrets[0].0, unlocked[0]);
    assert_eq!(secrets[0].1 .2, b"pw".to_vec());
    assert_eq!(
        svc.get_secrets(&st, &sm, &items, &vec!["/nowhere".to_string()], "/org/freedesktop/secrets/session/0".to_string(), None),
        Err("Item not found".to_string())
    );

    // lock by collection name
    let object = "/org/freedesktop/secrets/collection/default".to_string();
    let (locked_paths, prompt) = svc.lock(&mut st, &mut handles, &vec![object]).unwrap();
    assert_eq!(prompt, "/");
    assert_eq!(
        locked_paths,
        vec![
            "/org/freedesktop/secrets/aliases/default".to_string(),
            tks::tks_dbus::make_collection_path(st.collections[0].uuid)
        ]
    );
    assert!(st.collections[0].locked);
    let (unlocked, locked) = svc.search_items(&st, &mut items, &attrs(&[("user", "alice")])).unwrap();
    assert!(unlocked.is_empty());
    assert_eq!(locked.len(), 1);

    // what to unlock: objects of published collections only
    let item_path = ItemImpl::from_item_id(&mut items, &id).path;
    let targets = svc.unlock_targets(&handles, &vec![item_path.clone(), "/org/freedesktop/secrets/collection/zzz".to_string()]);
    assert_eq!(targets.len(), 1);
    assert_eq!(targets[0].0, 0);
    assert_eq!(targets[0].1.uuid, st.collections[0].uuid);
    let (c, _) = CollectionImpl::from_uuid(&mut handles, st.collections[0].uuid);
    assert_eq!(c.uuid, targets[0].1.uuid);
}

#[test]
fn collection_default_lookup_by_alias_path() {
    let st = started_storage();
    let mut handles = CollectionHandles::new();
    ServiceImpl::register_collections(&st, &mut handles).unwrap();
    let found = handles.find_by_path("/org/freedesktop/secrets/aliases/default");
    assert_eq!(found.uuid, st.collections[0].uuid);
    let _ = Collection::new("x", "/a", "/b", 1);
}
