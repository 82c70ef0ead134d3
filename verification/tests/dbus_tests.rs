use openssl::bn::BigNum;
use openssl::dh::Dh;
use openssl::symm::{decrypt, encrypt, Cipher};
use tks::error::TksError;
use tks::storage::attributes::Attributes;
use tks::storage::collection::{Collection, ItemId, ItemsPayload};
use tks::storage::tks_gcm::TksGcmBackend;
use tks::storage::Storage;
use tks::tks_dbus::client_context::{exe_digest, ClientRegistry, EnrollClientPrompt, TksClientOption, TksClientProcess};
use tks::tks_dbus::collection_impl::{CollectionHandles, CollectionImpl, CreateItemReply};
use tks::tks_dbus::item_impl::{ItemHandles, ItemImpl};
use tks::tks_dbus::prompt_impl::{
    ActionOutcome, ChainStep, ConfirmationAction, ConfirmationMessageActionParam, DialogResult, PassphraseAction,
    PromptAction, PromptDialog, PromptHandle, PromptRegistry, PromptWithPinentry, TksPrompt, TksPromptChain,
};
use tks::tks_dbus::session_impl::{Session, SessionManager};
use tks::tks_dbus::{DBusHandle, DBusHandlePath};

fn attrs(pairs: &[(&str, &str)]) -> Attributes {
    let mut a = Attributes::new();
    for (k, v) in pairs {
        a.insert(k.to_string(), v.to_string());
    }
    a
}

fn storage_with(collections: Vec<Collection>) -> Storage {
    Storage::new(TksGcmBackend::new("/var/lib/tks", vec![7u8; 16], Some(vec![1u8; 64])).unwrap(), collections)
}

fn unlocked(name: &str) -> Collection {
    let mut c = Collection::new(name, "/m", "/i", 1).unwrap();
    c.unlock(&ItemsPayload::Missing).unwrap();
    c
}

fn single(p: DBusHandlePath) -> String {
    match p {
        DBusHandlePath::SinglePath(s) => s,
        DBusHandlePath::MultiplePaths(_) => panic!("one path expected"),
    }
}

#[test]
fn plain_sessions() {
    let mut sm = SessionManager::new();
    let (id, out) = sm.new_session("plain".to_string(), None).unwrap();
    assert_eq!(id, 0);
    assert!(out.is_none());
    let s = sm.get_session(0).unwrap();
    assert_eq!(single(s.get_dbus_handle().path()), "/org/freedesktop/secrets/session/0");
    let (iv, out) = s.encrypt(&b"hello".to_vec()).unwrap();
    assert!(iv.is_empty());
    assert_eq!(out, b"hello".to_vec());
    assert_eq!(s.decrypt(&vec![], &b"hello".to_vec()).unwrap(), b"hello".to_vec());

    // a plain session takes no key-agreement input; an unknown algorithm is refused
    assert!(matches!(sm.new_session("plain".to_string(), Some(&vec![1])), Err(TksError::ParameterError)));
    assert!(matches!(sm.new_session("rot13".to_string(), None), Err(TksError::ParameterError)));
    assert!(matches!(
        sm.new_session("dh-ietf1024-sha256-aes128-cbc-pkcs7".to_string(), None),
        Err(TksError::ParameterError)
    ));
    // failed openings use up ids too
    let (id, _) = sm.new_session("plain".to_string(), None).unwrap();
    assert_eq!(id, 4);
    sm.close_session(0);
    assert!(sm.get_session(0).is_none());
    assert!(sm.get_session(4).is_some());
    let handle = sm.get_session(4).unwrap().get_dbus_handle();
    handle.close(&mut sm).unwrap();
    assert!(sm.get_session(4).is_none());
}

fn client_key_material(service_public: &[u8], client: &Dh<openssl::pkey::Private>) -> Vec<u8> {
    let peer = BigNum::from_slice(service_public).unwrap();
    let shared = client.compute_key(&peer).unwrap();
    let mut ctx = openssl::pkey_ctx::PkeyCtx::new_id(openssl::pkey::Id::HKDF).unwrap();
    ctx.derive_init().unwrap();
    ctx.set_hkdf_mode(openssl::pkey_ctx::HkdfMode::EXTRACT_THEN_EXPAND).unwrap();
    ctx.set_hkdf_salt(&[0u8; 32]).unwrap();
    ctx.set_hkdf_md(openssl::md::Md::sha256()).unwrap();
    ctx.set_hkdf_key(&shared).unwrap();
    let mut out = vec![0u8; 128];
    ctx.derive(Some(out.as_mut_slice())).unwrap();
    out[..16].to_vec()
}

#[test]
fn diffie_hellman_sessions_agree_with_the_client() {
    let p = BigNum::get_rfc2409_prime_1024().unwrap();
    let g = BigNum::from_u32(2).unwrap();
    let client = Dh::from_pqg(p, None, g).unwrap().generate_key().unwrap();
    let client_public = client.public_key().to_vec();

    let mut sm = SessionManager::new();
    let (id, out) = sm
        .new_session("dh-ietf1024-sha256-aes128-cbc-pkcs7".to_string(), Some(&client_public))
        .unwrap();
    let service_public = out.unwrap();
    let key = client_key_material(&service_public, &client);
    let s = sm.get_session(id).unwrap();
    assert_eq!(s.aes_key_bytes.as_ref().unwrap(), &key);

    // what the client sends, the service reads
    let iv = [5u8; 16];
    let sent = encrypt(Cipher::aes_128_cbc(), &key, Some(&iv), b"top secret").unwrap();
    assert_ne!(sent, b"top secret".to_vec());
    assert_eq!(s.decrypt(&iv.to_vec(), &sent).unwrap(), b"top secret".to_vec());

    // what the service sends, the client reads
    let (iv2, sealed) = s.encrypt(&b"for you".to_vec()).unwrap();
    assert_eq!(iv2.len(), 16);
    assert_ne!(sealed, b"for you".to_vec());
    assert_eq!(decrypt(Cipher::aes_128_cbc(), &key, Some(&iv2), &sealed).unwrap(), b"for you".to_vec());

    // and the session gives back what it encrypted
    assert_eq!(s.decrypt(&iv2, &sealed).unwrap(), b"for you".to_vec());
    assert!(matches!(s.decrypt(&iv.to_vec(), &b"not a block".to_vec()), Err(TksError::CryptoError)));
}

#[test]
fn collection_handles_publish_default_under_its_alias() {
    let mut h = CollectionHandles::new();
    let (d, new) = h.get_or_insert(0x1111, true);
    assert!(new);
    assert_eq!(d.paths[0], "/org/freedesktop/secrets/aliases/default");
    assert_eq!(d.paths[1], "/org/freedesktop/secrets/collection/00000000_0000_0000_0000_000000001111");
    let (again, new) = h.get_or_insert(0x1111, false);
    assert!(!new);
    assert!(again.default);
    let (w, _) = CollectionImpl::from_uuid(&mut h, 0x2222);
    assert!(!w.default);
    assert_eq!(w.paths.len(), 1);
    assert_eq!(h.find_by_path("/org/freedesktop/secrets/aliases/default").uuid, 0x1111);
    assert_eq!(h.find_by_path(&w.paths[0]).uuid, 0x2222);
    let none = h.find_by_path("/nowhere");
    assert!(!none.is_not_default());
    assert!(none.paths.is_empty());
    assert_eq!(h.collections().len(), 2);
    match d.path() {
        DBusHandlePath::MultiplePaths(v) => assert_eq!(v.len(), 2),
        _ => panic!("several paths"),
    }
    assert_eq!(d.path().into_path(), "/org/freedesktop/secrets/aliases/default");
}

#[test]
fn item_handles_and_paths() {
    let mut h = ItemHandles::new();
    let id = ItemId { uuid: 0xabc, collection_uuid: 0x1 };
    let item = ItemImpl::from_item_id(&mut h, &id);
    assert_eq!(
        item.path,
        "/org/freedesktop/secrets/collection/00000000_0000_0000_0000_000000000001/00000000_0000_0000_0000_000000000abc"
    );
    assert_eq!(h.uuid_to_path(0xabc), item.path);
    let found = ItemImpl::from_path(&h, &item.path);
    assert_eq!(found.item_id, id);
    let placeholder = ItemImpl::from_path(&h, "/x");
    assert!(placeholder.is_default());
    assert_eq!(placeholder.path, "/");
    assert!(item.is_not_default());
    h.remove(0xabc);
    assert!(ItemImpl::from_path(&h, &item.path).is_default());
}

#[test]
fn item_properties_and_secrets() {
    let mut st = storage_with(vec![unlocked("work")]);
    let cu = st.collections[0].uuid;
    let mut sm = SessionManager::new();
    sm.new_session("plain".to_string(), None).unwrap();
    let s = Session::new(9, "plain".to_string());
    let id = st.collections[0]
        .create_item("mail", attrs(&[("user", "a")]), (&s, vec![], b"pw".to_vec(), "text/plain".to_string()), false, 3)
        .unwrap();
    let mut handles = ItemHandles::new();
    let item = ItemImpl::from_item_id(&mut handles, &id);

    assert_eq!(item.label(&st).unwrap(), "mail");
    assert_eq!(item.created(&st).unwrap(), 3);
    assert_eq!(item.modified(&st).unwrap(), 3);
    assert_eq!(item.locked(&st).unwrap(), false);
    assert!(item.attributes(&st).unwrap().same_as(&attrs(&[("user", "a")])));
    assert_eq!(item.type_(&st).unwrap(), "text/plain");

    let (p, iv, secret, ct) = item
        .get_secret(&st, &sm, "/org/freedesktop/secrets/session/0".to_string(), Some(":1.5".to_string()))
        .unwrap();
    assert_eq!(p, "/org/freedesktop/secrets/session/0");
    assert!(iv.is_empty());
    assert_eq!(secret, b"pw".to_vec());
    assert_eq!(ct, "text/plain");
    assert_eq!(
        item.get_secret(&st, &sm, "/org/freedesktop/secrets/session/x".to_string(), Some(":1.5".to_string())),
        Err("Invalid session ID".to_string())
    );
    assert_eq!(
        item.get_secret(&st, &sm, "/org/freedesktop/secrets/session/3".to_string(), Some(":1.5".to_string())),
        Err("Session not found".to_string())
    );
    assert_eq!(
        item.get_secret(&st, &sm, "/org/freedesktop/secrets/session/0".to_string(), None),
        Err("Unkown sender".to_string())
    );

    item.set_label(&mut st, "post".to_string(), 10).unwrap();
    assert_eq!(item.label(&st).unwrap(), "post");
    assert_eq!(item.modified(&st).unwrap(), 10);
    assert_eq!(st.collections[0].modified, 10);
    item.set_attributes(&mut st, attrs(&[("user", "b")]), 11).unwrap();
    assert!(item.attributes(&st).unwrap().same_as(&attrs(&[("user", "b")])));
    item.set_type(&mut st, "application/octet-stream".to_string(), 12).unwrap();
    assert_eq!(item.type_(&st).unwrap(), "application/octet-stream");
    item.set_secret(
        &mut st,
        &sm,
        ("/org/freedesktop/secrets/session/0".to_string(), vec![], b"new".to_vec(), "text/plain".to_string()),
        Some(":1.5".to_string()),
        13,
    )
    .unwrap();
    assert_eq!(st.collections[0].items[0].data.as_ref().unwrap().data, b"new".to_vec());
    assert_eq!(
        item.set_secret(
            &mut st,
            &sm,
            ("/org/freedesktop/secrets/session/0".to_string(), vec![], b"x".to_vec(), "t".to_string()),
            None,
            14
        ),
        Err("Sender Unknown".to_string())
    );

    // an item of an unknown collection
    let lost = ItemImpl::from_item_id(&mut handles, &ItemId { uuid: 0x77, collection_uuid: 0x99 });
    assert_eq!(lost.locked(&st), Err("Item not found".to_string()));
    assert_eq!(lost.created(&st), Err("Item not found".to_string()));
    assert!(lost.label(&st).unwrap_err().starts_with("IO error: Collection '"));
    assert_eq!(lost.set_label(&mut st, "x".to_string(), 1), Err("Item not found".to_string()));
    assert_eq!(
        lost.set_attributes(&mut st, attrs(&[]), 1),
        Err("IO error: Collection not found".to_string())
    );

    // a locked collection keeps its secrets
    st.collections[0].lock().unwrap();
    assert_eq!(item.locked(&st).unwrap(), true);
    assert_eq!(
        item.get_secret(&st, &sm, "/org/freedesktop/secrets/session/0".to_string(), Some(":1.5".to_string())),
        Err("Item is locked".to_string())
    );
    assert_eq!(item.type_(&st), Err("Item is locked".to_string()));
    assert_eq!(item.set_type(&mut st, "t".to_string(), 1), Err("Item is locked".to_string()));
    assert_eq!(item.delete(&mut st, &mut handles, 20), Err("Item not found".to_string()));
    assert_eq!(st.collections[0].modified, 20);

    let _ = cu;
}

#[test]
fn deleting_an_item_forgets_its_handle() {
    let mut st = storage_with(vec![unlocked("work")]);
    let s = Session::new(0, "plain".to_string());
    let id = st.collections[0]
        .create_item("a", attrs(&[]), (&s, vec![], b"1".to_vec(), "t".to_string()), false, 1)
        .unwrap();
    let mut handles = ItemHandles::new();
    let item = ItemImpl::from_item_id(&mut handles, &id);
    assert_eq!(item.delete(&mut st, &mut handles, 5).unwrap(), "/");
    assert_eq!(st.collections[0].items.len(), 0);
    assert!(ItemImpl::from_path(&handles, &item.path).is_default());
    assert_eq!(item.delete(&mut st, &mut handles, 6), Err("Item not found".to_string()));
}

#[test]
fn collection_object_methods() {
    let mut st = storage_with(vec![unlocked("work")]);
    let cu = st.collections[0].uuid;
    let mut handles = CollectionHandles::new();
    let (mut coll, _) = CollectionImpl::from_collection(&mut handles, &st.collections[0]);
    let mut items = ItemHandles::new();
    let mut sm = SessionManager::new();
    sm.new_session("plain".to_string(), None).unwrap();

    assert_eq!(coll.label(&st).unwrap(), "work");
    assert_eq!(coll.locked(&st).unwrap(), false);
    assert_eq!(coll.created(&st).unwrap(), 1);
    coll.set_label(&mut st, "job".to_string(), 9).unwrap();
    assert_eq!(coll.label(&st).unwrap(), "job");
    assert_eq!(coll.modified(&st).unwrap(), 9);
    assert_eq!(coll.delete(), Err("Not implemented".to_string()));

    let secret = ("/org/freedesktop/secrets/session/0".to_string(), vec![], b"pw".to_vec(), "text/plain".to_string());
    assert_eq!(
        coll.create_item(&mut st, &sm, &mut items, None, Some(attrs(&[])), secret.clone(), false, 2).err(),
        Some("No label specified".to_string())
    );
    assert_eq!(
        coll.create_item(&mut st, &sm, &mut items, Some(None), Some(attrs(&[])), secret.clone(), false, 2).err(),
        Some("Label is not a string".to_string())
    );
    assert_eq!(
        coll.create_item(&mut st, &sm, &mut items, Some(Some("l".to_string())), None, secret.clone(), false, 2).err(),
        Some("Error creating item: No attributes specified".to_string())
    );
    let bad_session = ("/x/y".to_string(), vec![], b"pw".to_vec(), "t".to_string());
    assert_eq!(
        coll.create_item(&mut st, &sm, &mut items, Some(Some("l".to_string())), Some(attrs(&[])), bad_session, false, 2)
            .err(),
        Some("Invalid session ID".to_string())
    );
    let reply = coll
        .create_item(&mut st, &sm, &mut items, Some(Some("mail".to_string())), Some(attrs(&[("k", "v")])), secret.clone(), false, 2)
        .unwrap();
    let item_path = match reply {
        CreateItemReply::Created(p, prompt) => {
            assert_eq!(prompt, "/");
            p
        }
        CreateItemReply::UnlockFirst(_) => panic!("the collection is unlocked"),
    };
    assert!(item_path.starts_with(&coll.paths[0]));
    assert_eq!(st.collections[0].items.len(), 1);
    assert_eq!(coll.items(&st, &mut items).unwrap(), vec![item_path.clone()]);
    assert_eq!(coll.search_items(&st, &mut items, &attrs(&[("k", "v")])).unwrap(), vec![item_path.clone()]);
    assert!(coll.search_items(&st, &mut items, &attrs(&[("k", "w")])).unwrap().is_empty());
    let dup = coll.create_item(&mut st, &sm, &mut items, Some(Some("m".to_string())), Some(attrs(&[("k", "v")])), secret.clone(), false, 3);
    assert_eq!(dup.err(), Some("Duplicate element".to_string()));

    let no_session = ("/org/freedesktop/secrets/session/5".to_string(), vec![], b"pw".to_vec(), "t".to_string());
    let r = CollectionImpl::store_new_item(&mut st, &sm, &mut items, cu, no_session, false, "x".to_string(), attrs(&[]), 5, 4);
    assert!(matches!(r, Err(TksError::IOError(ref m)) if m == "Session 5 not found"));

    st.collections[0].lock().unwrap();
    let reply = coll
        .create_item(&mut st, &sm, &mut items, Some(Some("n".to_string())), Some(attrs(&[])), secret.clone(), false, 4)
        .unwrap();
    let action = match reply {
        CreateItemReply::UnlockFirst(a) => a,
        CreateItemReply::Created(..) => panic!("the collection is locked"),
    };
    let question = format!("Unlock collection '{}'?", uuid::Uuid::from_u128(cu));
    let pending = match &action.dialog {
        PromptDialog::ConfirmationMessage(yes, no, q, ConfirmationMessageActionParam::CreateItem(p), act) => {
            assert_eq!(yes, "Yes");
            assert!(no.is_empty());
            assert_eq!(q, &question);
            assert_eq!(*act, ConfirmationAction::UnlockAndCreateItem);
            assert_eq!(p.label, "n");
            assert_eq!(p.session_id, 0);
            p.clone()
        }
        _ => panic!("a confirmation dialog expected"),
    };
    assert_eq!(st.collections[0].items.len(), 1);
    assert!(matches!(action.clone().outcome(DialogResult::Confirmation(false)), ActionOutcome::Done(true)));
    assert!(matches!(action.outcome(DialogResult::Confirmation(true)), ActionOutcome::UnlockAndCreateItem(_)));
    assert_eq!(coll.unlock(&mut st, &ItemsPayload::Missing).unwrap(), "/");
    assert!(st.collections[0].locked);
    // once the collection is unlocked, the pending item is created
    st.collections[0].unlock(&ItemsPayload::Missing).unwrap_err();
    st.collections[0].locked = false;
    let (p, prompt) = CollectionImpl::create_pending_item(&mut st, &sm, &mut items, pending, 5).unwrap();
    assert_eq!(prompt, "/");
    assert!(p.starts_with(&coll.paths[0]));
    assert_eq!(st.collections[0].items.len(), 2);
}

#[test]
fn default_handle_answers_like_any_other() {
    let mut st = storage_with(vec![unlocked("work")]);
    let mut sm = SessionManager::new();
    sm.new_session("plain".to_string(), None).unwrap();
    let mut items = ItemHandles::new();
    let coll = CollectionImpl::default();
    let secret = ("/org/freedesktop/secrets/session/0".to_string(), vec![], b"pw".to_vec(), "text/plain".to_string());
    assert_eq!(
        coll.create_item(&mut st, &sm, &mut items, None, Some(attrs(&[])), secret.clone(), false, 1).err(),
        Some("No label specified".to_string())
    );
    assert_eq!(
        coll.create_item(&mut st, &sm, &mut items, Some(Some("l".to_string())), None, secret.clone(), false, 1).err(),
        Some("Error creating item: No attributes specified".to_string())
    );
    let bad = ("/org/freedesktop/secrets/session/abc".to_string(), vec![], b"pw".to_vec(), "text/plain".to_string());
    assert_eq!(
        coll.create_item(&mut st, &sm, &mut items, Some(Some("l".to_string())), Some(attrs(&[])), bad, false, 1).err(),
        Some("Invalid session ID".to_string())
    );
    assert_eq!(
        coll.create_item(&mut st, &sm, &mut items, Some(Some("l".to_string())), Some(attrs(&[])), secret, false, 1).err(),
        Some("Not found".to_string())
    );
}

#[test]
fn prompts_are_numbered_and_chained() {
    let mut reg = PromptRegistry::new();
    let action = PromptAction {
        dialog: PromptDialog::PromptMessage("OK".to_string(), "Hello".to_string()),
    };
    let p1 = PromptWithPinentry::new(&mut reg, action).unwrap();
    assert_eq!(p1, "/org/freedesktop/secrets/prompt/1");
    let p2 = PromptWithPinentry::new(
        &mut reg,
        PromptAction {
            dialog: PromptDialog::PassphraseInput("d".to_string(), "p".to_string(), None, None, PassphraseAction::UnlockStorage),
        },
    )
    .unwrap();
    let chain_path = TksPromptChain::new(&mut reg, vec![p1.clone(), p2.clone(), "/bad/path".to_string()]);
    assert_eq!(chain_path, "/org/freedesktop/secrets/prompt/3");
    assert_eq!(single(PromptHandle { prompt_id: 3 }.path()), chain_path);

    let chain = match reg.get(3).unwrap() {
        TksPrompt::Chain(c) => TksPromptChain { prompts: c.prompts.clone(), prompt_id: c.prompt_id },
        _ => panic!("a chain"),
    };
    assert!(matches!(chain.invoke_step(&reg, 0, false), ChainStep::Prompt(1)));
    assert!(matches!(chain.invoke_step(&reg, 1, true), ChainStep::Dismiss(2)));
    assert!(matches!(
        chain.invoke_step(&reg, 2, false),
        ChainStep::Finished(Err(TksError::NotFound(Some(ref m)))) if m == "/bad/path"
    ));
    assert!(matches!(chain.invoke_step(&reg, 3, true), ChainStep::Finished(Ok(true))));
    assert!(matches!(TksPromptChain::absorb(false, Ok(true)), Ok(true)));
    assert!(matches!(TksPromptChain::absorb(false, Ok(false)), Ok(false)));
    assert!(matches!(TksPromptChain::absorb(false, Err(TksError::CryptoError)), Err(TksError::CryptoError)));

    let (dismissed, paths) = reg.completed(1, Some((false, None)));
    assert!(!dismissed);
    assert_eq!(paths, vec![p1.clone()]);
    assert!(reg.get(1).is_none());
    assert!(matches!(
        chain.invoke_step(&reg, 0, false),
        ChainStep::Finished(Err(TksError::NotFound(Some(ref m)))) if m == "Prompt not registered: /org/freedesktop/secrets/prompt/1"
    ));
    let (dismissed, paths) = reg.completed(3, Some((true, Some(vec![p2.clone()]))));
    assert!(dismissed);
    assert_eq!(paths, vec![chain_path.clone(), p2.clone()]);
    let (dismissed, paths) = reg.completed(2, None);
    assert!(dismissed);
    assert_eq!(paths, vec![p2.clone()]);

    let gone = PromptHandle { prompt_id: 2 };
    assert_eq!(gone.prompt_target(&reg).err(), Some("could not create confirmation dialog".to_string()));
    assert_eq!(gone.dismiss_target(&reg).err(), Some("could not dismiss unknown prompt".to_string()));
    assert_eq!(reg.next_prompt_id(), 4);
}

#[test]
fn dialog_answers_lead_to_actions() {
    let msg = PromptAction { dialog: PromptDialog::PromptMessage("OK".to_string(), "m".to_string()) };
    assert!(msg.dismiss().is_ok());
    assert!(matches!(msg.outcome(DialogResult::Unused), ActionOutcome::Done(false)));
    let pass = PromptAction {
        dialog: PromptDialog::PassphraseInput("d".to_string(), "p".to_string(), None, None, PassphraseAction::UnlockStorage),
    };
    assert!(matches!(pass.outcome(DialogResult::Secret(b"pw".to_vec())), ActionOutcome::UnlockStorage(ref s) if s == b"pw"));
    let confirm = || PromptAction {
        dialog: PromptDialog::ConfirmationMessage(
            "Yes".to_string(),
            "No".to_string(),
            "q".to_string(),
            ConfirmationMessageActionParam::ConfirmNewClient("/usr/bin/app".to_string()),
            ConfirmationAction::RegisterClient,
        ),
    };
    assert!(matches!(confirm().outcome(DialogResult::Confirmation(false)), ActionOutcome::Done(true)));
    assert!(matches!(
        confirm().outcome(DialogResult::Confirmation(true)),
        ActionOutcome::RegisterClient(ref p) if p == "/usr/bin/app"
    ));
}

#[test]
fn unknown_clients_are_asked_for() {
    let mut clients = ClientRegistry::new();
    let mut reg = PromptRegistry::new();
    let process = TksClientProcess { name: ":1.42".to_string(), exe_path: "/usr/bin/app".to_string() };
    let enroll = EnrollClientPrompt::new(&process);
    assert_eq!(enroll.client_process.exe_path, "/usr/bin/app");
    match clients.retrieve(&process, &mut reg).unwrap() {
        TksClientOption::Prompt(p) => assert_eq!(p, "/org/freedesktop/secrets/prompt/1"),
        TksClientOption::Client(_) => panic!("the client is unknown"),
    }
    match reg.get(1).unwrap() {
        TksPrompt::Pinentry(p) => match &p.action.dialog {
            PromptDialog::ConfirmationMessage(yes, no, q, ConfirmationMessageActionParam::ConfirmNewClient(exe), _) => {
                assert_eq!(yes, "Yes");
                assert_eq!(no, "No");
                assert_eq!(
                    q,
                    "An application having the process executable \"/usr/bin/app\" wants to let Tks handle their secrets. Should we accept this?"
                );
                assert_eq!(exe, "/usr/bin/app");
            }
            _ => panic!("a confirmation"),
        },
        _ => panic!("a dialog prompt"),
    }
    let param = ConfirmationMessageActionParam::ConfirmNewClient("/usr/bin/app".to_string());
    assert!(matches!(clients.confirm_new_client(&param), Ok(false)));
    assert!(matches!(clients.confirm_new_client(&param), Ok(false)));
    assert_eq!(clients.known_clients.len(), 1);
    assert!(matches!(clients.retrieve(&process, &mut reg).unwrap(), TksClientOption::Client(_)));
    assert_eq!(reg.counter, 1);
}

#[test]
fn a_secret_written_in_a_session_is_read_back() {
    let p = BigNum::get_rfc2409_prime_1024().unwrap();
    let g = BigNum::from_u32(2).unwrap();
    let client = Dh::from_pqg(p, None, g).unwrap().generate_key().unwrap();
    let mut sm = SessionManager::new();
    let (id, out) = sm
        .new_session("dh-ietf1024-sha256-aes128-cbc-pkcs7".to_string(), Some(&client.public_key().to_vec()))
        .unwrap();
    let key = client_key_material(&out.unwrap(), &client);
    let path = format!("/org/freedesktop/secrets/session/{}", id);

    let mut st = storage_with(vec![unlocked("work")]);
    let plain = Session::new(9, "plain".to_string());
    let item_id = st.collections[0]
        .create_item("mail", attrs(&[]), (&plain, vec![], b"old".to_vec(), "text/plain".to_string()), false, 3)
        .unwrap();
    let mut handles = ItemHandles::new();
    let item = ItemImpl::from_item_id(&mut handles, &item_id);

    let iv = [9u8; 16];
    let sent = encrypt(Cipher::aes_128_cbc(), &key, Some(&iv), b"written secret").unwrap();
    item.set_secret(&mut st, &sm, (path.clone(), iv.to_vec(), sent, "text/x".to_string()), Some(":1.7".to_string()), 5)
        .unwrap();
    let (p2, iv2, sealed, ct) = item.get_secret(&st, &sm, path.clone(), Some(":1.7".to_string())).unwrap();
    assert_eq!(p2, path);
    assert_eq!(ct, "text/x");
    assert_eq!(decrypt(Cipher::aes_128_cbc(), &key, Some(&iv2), &sealed).unwrap(), b"written secret".to_vec());

    // a secret that does not decrypt in the session is not stored
    let bad = item.set_secret(&mut st, &sm, (path.clone(), vec![1u8; 5], b"x".to_vec(), "t".to_string()), Some(":1.7".to_string()), 6);
    assert_eq!(bad, Err("Item not found".to_string()));
    let bad = item.set_secret(&mut st, &sm, (path.clone(), iv.to_vec(), b"not a block".to_vec(), "t".to_string()), Some(":1.7".to_string()), 6);
    assert_eq!(bad, Err("Item not found".to_string()));
    assert_eq!(st.collections[0].items[0].data.as_ref().unwrap().content_type, "text/x");
}

#[test]
fn executable_digest_hashes_whole_buffers() {
    let chunks = vec![b"abc".to_vec(), b"de".to_vec()];
    let mut data = b"abc".to_vec();
    data.resize(1024, 0);
    data.extend_from_slice(b"de");
    data.resize(2048, 0);
    assert_eq!(exe_digest(&chunks), openssl::sha::sha256(&data));
    assert_ne!(exe_digest(&chunks), openssl::sha::sha256(b"abcde"));
    assert_eq!(exe_digest(&vec![]), openssl::sha::sha256(b""));
}
