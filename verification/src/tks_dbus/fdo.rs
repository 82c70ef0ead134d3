//! The signals of the `org.freedesktop.Secret` interfaces, with the object path each
//! carries.

use vstd::prelude::*;

verus! {

/// `ItemCreated` of `org.freedesktop.Secret.Collection`.
#[derive(Debug)]
pub struct OrgFreedesktopSecretCollectionItemCreated {
    pub item: String,
}

/// `ItemDeleted` of `org.freedesktop.Secret.Collection`.
#[derive(Debug)]
pub struct OrgFreedesktopSecretCollectionItemDeleted {
    pub item: String,
}

/// `ItemChanged` of `org.freedesktop.Secret.Collection`.
#[derive(Debug)]
pub struct OrgFreedesktopSecretCollectionItemChanged {
    pub item: String,
}

/// `CollectionCreated` of `org.freedesktop.Secret.Service`.
#[derive(Debug)]
pub struct OrgFreedesktopSecretServiceCollectionCreated {
    pub collection: String,
}

/// `CollectionDeleted` of `org.freedesktop.Secret.Service`.
#[derive(Debug)]
pub struct OrgFreedesktopSecretServiceCollectionDeleted {
    pub collection: String,
}

/// `CollectionChanged` of `org.freedesktop.Secret.Service`.
#[derive(Debug)]
pub struct OrgFreedesktopSecretServiceCollectionChanged {
    pub collection: String,
}

} // verus!
