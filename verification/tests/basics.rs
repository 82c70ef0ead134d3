use tks::error::TksError;
use tks::storage::collection::Collection;
use tks::storage::collection_not_found;
use tks::tks_dbus::uuid_element;
use tks::storage::attributes::Attributes;
use tks::text::{join_texts, parse_usize, split_segments, usize_to_decimal};
use tks::tks_dbus::{
    make_collection_path, make_item_path, numbered_path, sanitize_string, trailing_number_of,
};

#[test]
fn parse_usize_reads_decimal_numbers() {
    assert_eq!(parse_usize("42"), Some(42));
    assert_eq!(parse_usize("0"), Some(0));
    assert_eq!(parse_usize("+7"), Some(7));
    assert_eq!(parse_usize(""), None);
    assert_eq!(parse_usize("4a"), None);
    assert_eq!(parse_usize("-1"), None);
    assert_eq!(parse_usize("+"), None);
    assert_eq!(parse_usize("18446744073709551615"), Some(usize::MAX));
    assert_eq!(parse_usize("18446744073709551616"), None);
}

#[test]
fn decimal_text_of_numbers() {
    assert_eq!(usize_to_decimal(0), "0");
    assert_eq!(usize_to_decimal(12345), "12345");
    assert_eq!(usize_to_decimal(usize::MAX), usize::MAX.to_string());
}

#[test]
fn decimal_round_trip_law() {
    for n in [0usize, 1, 9, 10, 99, 100, 65535, 1_000_000_007, usize::MAX] {
        assert_eq!(parse_usize(&usize_to_decimal(n)), Some(n));
    }
}

#[test]
fn split_and_join_paths() {
    let parts = split_segments("/org/freedesktop/secrets", '/');
    assert_eq!(parts, vec!["", "org", "freedesktop", "secrets"]);
    assert_eq!(split_segments("", '/'), vec![""]);
    assert_eq!(split_segments("a//b/", '/'), vec!["a", "", "b", ""]);
    assert_eq!(join_texts(&parts, 3, "/"), "/org/freedesktop");
    assert_eq!(join_texts(&parts, 0, "/"), "");
    assert_eq!(join_texts(&parts, 4, ", "), ", org, freedesktop, secrets");
}

#[test]
fn sanitize_replaces_characters_not_allowed_in_paths() {
    assert_eq!(sanitize_string("abc_XYZ_09"), "abc_XYZ_09");
    assert_eq!(sanitize_string("a-b.c d/é"), "a_b_c_d__");
}

#[test]
fn session_path_round_trip_law() {
    for id in [0usize, 7, 42, 123456] {
        let p = numbered_path("/org/freedesktop/secrets/session/", id);
        assert_eq!(p, format!("/org/freedesktop/secrets/session/{}", id));
        assert_eq!(trailing_number_of(&p), Some(id));
    }
    assert_eq!(trailing_number_of("/org/freedesktop/secrets/session/x1"), None);
    assert_eq!(trailing_number_of("/"), None);
}

#[test]
fn uuid_text_is_hyphenated_lowercase() {
    let u = 0x67e5504410b1426f9247bb680427c8c0u128;
    match collection_not_found(u) {
        TksError::IOError(m) => assert_eq!(m, "Collection '67e55044-10b1-426f-9247-bb680427c8c0' not found"),
        _ => panic!("an IO error expected"),
    }
    match collection_not_found(0) {
        TksError::IOError(m) => assert_eq!(m, "Collection '00000000-0000-0000-0000-000000000000' not found"),
        _ => panic!("an IO error expected"),
    }
    assert_eq!(uuid_element(u), "67e55044_10b1_426f_9247_bb680427c8c0");
}

#[test]
fn fresh_uuids_are_random_version_four() {
    let a = Collection::new("a", "/m/a", "/i/a", 1).unwrap().uuid;
    let b = Collection::new("b", "/m/b", "/i/b", 1).unwrap().uuid;
    assert_ne!(a, 0);
    assert_ne!(a, b);
    assert_eq!(a & 0xF000_C000_0000_0000_0000u128, 0x4000_8000_0000_0000_0000u128);
    assert_eq!(uuid::Uuid::from_u128(a).get_version_num(), 4);
}

#[test]
fn object_paths_of_collections_and_items() {
    let c = 0x67e5504410b1426f9247bb680427c8c0u128;
    let i = 0x11112222333344445555666677778888u128;
    assert_eq!(
        make_collection_path(c),
        "/org/freedesktop/secrets/collection/67e55044_10b1_426f_9247_bb680427c8c0"
    );
    assert_eq!(
        make_item_path(c, i),
        "/org/freedesktop/secrets/collection/67e55044_10b1_426f_9247_bb680427c8c0/11112222_3333_4444_5555_666677778888"
    );
}

#[test]
fn error_texts() {
    assert_eq!(TksError::ParameterError.to_string(), "Parameter error");
    assert_eq!(TksError::CryptoError.to_string(), "Crypto error");
    assert_eq!(TksError::IOError("disk".to_string()).to_string(), "IO error: disk");
    assert_eq!(TksError::NotFound(Some("x".to_string())).to_string(), "Not found");
    assert_eq!(TksError::NotFound(None).to_string(), "Not found");
    assert_eq!(TksError::SerializationError("bad".to_string()).to_string(), "Serialization error: bad");
    assert_eq!(TksError::PermissionDenied.to_string(), "Access denied");
    assert_eq!(TksError::Duplicate.to_string(), "Duplicate element");
    assert_eq!(TksError::LockingError.to_string(), "Locking error");
    assert_eq!(TksError::ConfigurationError("c".to_string()).to_string(), "Configuration error: c");
    assert_eq!(TksError::InternalError("i".to_string()).to_string(), "Internal error: i");
    assert_eq!(TksError::BackendError("b".to_string()).to_string(), "Backend error: b");
    assert_eq!(
        TksError::NoPinentryBinaryFound.to_string(),
        "No pinentry binary found, please install it."
    );
    assert_eq!(TksError::PinentryError("p".to_string()).to_string(), "Pinentry returned error p");
    assert_eq!(
        TksError::ItemNotFound.to_string(),
        "Item not found upon unlocking collection. Maybe data is corrupted?"
    );
    assert_eq!(TksError::DBusError("d".to_string()).to_string(), "DBusError: d");
    assert_eq!(TksError::ContextError("x".to_string()).to_string(), "ContextError: x");
    assert_eq!(TksError::GetHomeError("h".to_string()).to_string(), "GetHomeError: h");
    assert_eq!(TksError::NotSupported("n".to_string()).to_string(), "Not supported: n");
}

#[test]
fn attributes_map_names_to_values() {
    let mut a = Attributes::new();
    assert_eq!(a.len(), 0);
    a.insert("user".to_string(), "alice".to_string());
    a.insert("service".to_string(), "mail".to_string());
    assert_eq!(a.len(), 2);
    assert_eq!(a.get("user"), Some(&"alice".to_string()));
    assert_eq!(a.get("nobody"), None);
    a.insert("user".to_string(), "bob".to_string());
    assert_eq!(a.len(), 2);
    assert_eq!(a.get("user"), Some(&"bob".to_string()));

    let copy = a.clone();
    assert!(copy.same_as(&a));
    let mut other = Attributes::new();
    other.insert("service".to_string(), "mail".to_string());
    assert!(!other.same_as(&a));
    other.insert("user".to_string(), "bob".to_string());
    assert!(other.same_as(&a));
}
