//! The backend shared with the `pass` utility (password-store): the whole store is one
//! collection, mapped to the Secret Service `default` collection; no other collection can be
//! created.

use vstd::prelude::*;
use crate::error::TksError;
use crate::storage::collection::{default_name, Collection};
use crate::storage::{join_path, path_join, StorageBackendType};
use crate::text::from_literal;

verus! {

/// The password-store backend: the store's directory, and the file of the metadata of its
/// one collection once it has been set up.
#[derive(Debug)]
pub struct PasswordStoreBackend {
    pub path: String,
    pub metadata_path: Option<String>,
}

impl PasswordStoreBackend {
    /// The backend for the store at `path`, before its metadata is set up.
    /// The backend for the store at the configured `path`, by default `.password-store` in
    /// the user's `home` directory, before its metadata is set up.
    pub fn new(path: Option<String>, home: &str) -> (r: PasswordStoreBackend)
        ensures
            r.path@ == match path {
                Some(p) => p@,
                None => path_join(home@, ".password-store"@),
            },
            r.metadata_path is None,
    {
        let path = match path {
            Some(p) => p,
            None => join_path(home, ".password-store"),
        };
        PasswordStoreBackend { path, metadata_path: None }
    }

    /// Sets up the metadata of the store's one collection under `data_dir`, the backend's
    /// directory of data: the metadata lives in `data_dir/metadata`, and the `default`
    /// collection's file there. When that file does not exist yet (`collection_exists` is
    /// false), returns the new default collection to save, created at time `ts`, whose items
    /// are the store itself.
    pub fn create_or_update_metadata(&mut self, data_dir: &str, collection_exists: bool, ts: u64) -> (r: Result<
        Option<Collection>,
        TksError,
    >)
        ensures
            final(self).path@ == old(self).path@,
            final(self).metadata_path matches Some(m) && m@ == path_join(data_dir@, "metadata"@),
            collection_exists ==> r matches Ok(None),
            !collection_exists ==> match r {
                Ok(Some(c)) => {
                    &&& c.name@ == default_name()
                    &&& c.default
                    &&& c.path@ == path_join(path_join(data_dir@, "metadata"@), "default"@)
                    &&& c.items_path@ == old(self).path@
                    &&& c.items@.len() == 0
                    &&& c.locked
                    &&& c.created == ts
                },
                Ok(None) => false,
                Err(e) => e == TksError::CryptoError,
            },
    {
        let metadata_path = join_path(data_dir, "metadata");
        let collection_path = join_path(metadata_path.as_str(), "default");
        self.metadata_path = Some(metadata_path);
        if collection_exists {
            return Ok(None);
        }
        proof { reveal_strlit("default"); }
        let c = Collection::new("default", collection_path.as_str(), self.path.as_str(), ts)?;
        Ok(Some(c))
    }

    pub fn get_kind(&self) -> (r: StorageBackendType)
        ensures
            r == StorageBackendType::PasswordStore,
    {
        StorageBackendType::PasswordStore
    }

    /// The metadata files of the collections: the one of the store.
    pub fn get_metadata_paths(&self) -> (r: Result<Vec<String>, TksError>)
        requires
            self.metadata_path is Some,
        ensures
            r matches Ok(v) && v@.len() == 1 && v@[0]@ == self.metadata_path->0@,
    {
        let m = self.metadata_path.as_ref().unwrap().clone();
        Ok(vec![m])
    }

    /// New collections cannot be created in this backend.
    pub fn new_metadata_path(&self, name: &str) -> (r: Result<(String, String), TksError>)
        ensures
            r matches Err(TksError::NotSupported(m)) && m@
                == "password-store backend does not support creating new collections"@,
    {
        Err(TksError::NotSupported(from_literal("password-store backend does not support creating new collections")))
    }
}

} // verus!
