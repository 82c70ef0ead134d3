use tks::kwallet::{kwallet_item_attributes, plan_import, plan_import_of, ImportKwalletCmd, ImportStep, XmlNode};

const WALLET: &str = r#"<wallet name="kdewallet">
<folder name="Network"><password name="wifi">secret1</password><map name="m"><mapentry name="k">v</mapentry></map><password name="empty"></password><binary name="b">x</binary></folder>
<folder name="Mail"><password name="imap">pw</password></folder>
</wallet>"#;

fn describe(steps: &[ImportStep]) -> Vec<String> {
    steps
        .iter()
        .map(|s| match s {
            ImportStep::Create(f, l, t) => format!("create {}/{}={}", f, l, t),
            ImportStep::IgnoreMap(f, l) => format!("map {}/{}", f, l),
            ImportStep::Empty(f, l) => format!("empty {}/{}", f, l),
            ImportStep::Fail(m) => format!("fail {}", m),
        })
        .collect()
}

#[test]
fn wallet_entries_become_steps() {
    let plan = plan_import_of(WALLET).unwrap().unwrap();
    assert_eq!(
        describe(&plan),
        vec!["create Network/wifi=secret1", "map Network/m", "empty Network/empty", "create Mail/imap=pw"]
    );
}

#[test]
fn import_stops_at_the_first_missing_name() {
    let xml = r#"<wallet><folder name="A"><password name="p">1</password></folder><folder><password name="q">2</password></folder><folder name="C"><password name="r">3</password></folder></wallet>"#;
    let plan = plan_import_of(xml).unwrap().unwrap();
    assert_eq!(describe(&plan), vec!["create A/p=1", "fail Missing name in wallet attribute"]);
    let xml = r#"<wallet><folder name="A"><password>1</password><password name="z">2</password></folder></wallet>"#;
    let plan = plan_import_of(xml).unwrap().unwrap();
    assert_eq!(describe(&plan), vec!["fail Missing name"]);
}

#[test]
fn documents_without_wallet_or_malformed() {
    assert!(plan_import_of("<other/>").unwrap().is_none());
    assert!(plan_import_of("<wallet>").is_err());
    let nested = r#"<export><wallet><folder name="F"><password name="p">s</password></folder></wallet></export>"#;
    assert_eq!(describe(&plan_import_of(nested).unwrap().unwrap()), vec!["create F/p=s"]);
}

#[test]
fn plans_from_node_lists() {
    let node = |parent: Option<usize>, tag: &str, name: Option<&str>, text: Option<&str>| XmlNode {
        parent,
        is_element: !tag.is_empty(),
        tag: tag.to_string(),
        name: name.map(|s| s.to_string()),
        text: text.map(|s| s.to_string()),
    };
    let nodes = vec![
        node(None, "", None, None),
        node(Some(0), "wallet", None, None),
        node(Some(1), "folder", Some("F"), None),
        node(Some(2), "password", Some("p"), Some("s")),
        node(Some(3), "", None, Some("s")),
    ];
    assert_eq!(describe(&plan_import(&nodes).unwrap()), vec!["create F/p=s"]);
    assert!(plan_import(&vec![node(None, "", None, None)]).is_none());
}

#[test]
fn imported_items_attributes() {
    let a = kwallet_item_attributes("Network");
    assert_eq!(a.len(), 4);
    assert_eq!(a.get("tks:kwallet-folder"), Some(&"Network".to_string()));
    assert_eq!(a.get("tks:kwallet-entry-type"), Some(&"password".to_string()));
    assert_eq!(a.get("xdg:schema"), Some(&"org.freedesktop.Secret.Generic".to_string()));
    assert_eq!(a.get("xdg:creator"), Some(&"org.kde.KWallet".to_string()));
}

#[test]
fn target_collection_by_label() {
    let cmd = ImportKwalletCmd {
        xml_file: "w.xml".to_string(),
        to_default_collection: false,
        collection_name: Some("work".to_string()),
        replace_existing_items: false,
    };
    let labels = vec!["work".to_string(), "default".to_string(), "work".to_string()];
    assert_eq!(cmd.choose_collection(&labels), Ok(2));
    assert_eq!(
        cmd.choose_collection(&vec!["default".to_string()]),
        Err("No collection named 'work' found".to_string())
    );
}

#[test]
fn form_data_folder_is_left_out() {
    let xml = r#"<wallet><folder name="FormData"><password name="f">1</password><map name="m"></map></folder><folder name="Passwords"><password name="p">2</password></folder></wallet>"#;
    let plan = plan_import_of(xml).unwrap().unwrap();
    assert_eq!(describe(&plan), vec!["create Passwords/p=2"]);
}
