//! The TKS storage backend: item secrets are kept in files encrypted with AES-256-GCM
//! under a key derived from the user's password.
//!
//! An items file is laid out as one version byte (1), the 12-byte IV, the 16-byte tag and
//! the ciphertext. The additional authenticated data binds the file to the collection's
//! metadata and paths.

use vstd::prelude::*;
use crate::crypto::{
    aes_256_gcm_decrypt, aes_256_gcm_encrypt, aes_256_gcm_open, aes_256_gcm_seal, c_int_max,
    pbkdf2_hmac_sha512, pbkdf2_sha512, random_bytes,
};
use vstd::utf8::encode_utf8;
use crate::error::TksError;
use crate::storage::{join_path, path_join, StorageBackendType};
use crate::text::{from_literal, same_text};
use crate::tks_dbus::prompt_impl::{PassphraseAction, PromptAction, PromptDialog};

verus! {

/// Version byte of the items file layout.
pub const FILE_SCHEMA_VERSION: u8 = 1;

/// Number of PBKDF2 rounds used to derive the storage key.
pub const PBKDF2_ITERATIONS: usize = 1024;

/// Length of the storage key in bytes (AES-256).
pub const KEY_LEN: usize = 32;

/// Length of the random salt and of the commissioning data in bytes.
pub const RANDOM_FILE_LEN: usize = 256;

/// The items file holding `ciphertext` sealed with `iv` and `tag`.
pub open spec fn items_file(iv: Seq<u8>, tag: Seq<u8>, ciphertext: Seq<u8>) -> Seq<u8> {
    seq![FILE_SCHEMA_VERSION] + iv + tag + ciphertext
}

/// The IV, tag and ciphertext of an items file, when it has the known version and is long
/// enough to hold an IV and a tag.
pub open spec fn items_file_parts(f: Seq<u8>) -> Option<(Seq<u8>, Seq<u8>, Seq<u8>)> {
    if f.len() >= 29 && f[0] == FILE_SCHEMA_VERSION {
        Some((f.subrange(1, 13), f.subrange(13, 29), f.subrange(29, f.len() as int)))
    } else {
        None
    }
}

/// An items file built from a 12-byte IV and a 16-byte tag is read back into the same
/// IV, tag and ciphertext.
pub proof fn lemma_items_file_parts(iv: Seq<u8>, tag: Seq<u8>, ciphertext: Seq<u8>)
    requires
        iv.len() == 12,
        tag.len() == 16,
    ensures
        items_file_parts(items_file(iv, tag, ciphertext)) == Some((iv, tag, ciphertext)),
{
    let f = items_file(iv, tag, ciphertext);
    assert(f.subrange(1, 13) =~= iv);
    assert(f.subrange(13, 29) =~= tag);
    assert(f.subrange(29, f.len() as int) =~= ciphertext);
}

/// What the items file `f` holds under `key`, authenticated with `aad`: the plaintext when
/// the file is laid out right and its tag authenticates it, nothing otherwise.
pub open spec fn items_file_plain(key: Seq<u8>, aad: Seq<u8>, f: Seq<u8>) -> Option<Seq<u8>> {
    match items_file_parts(f) {
        Some((iv, tag, ct)) => aes_256_gcm_open(key, iv, aad, ct, tag),
        None => None,
    }
}

/// `e` is the error that reading the items file `f` fails with, when it does not open: a
/// file of another version, a file too short, or a file that does not authenticate.
pub open spec fn items_file_error(f: Seq<u8>, e: TksError) -> bool {
    match items_file_parts(f) {
        None => e matches TksError::SerializationError(m) && m@ == (if f.len() > 0 && f[0] != FILE_SCHEMA_VERSION {
            "Unknown file version"@
        } else {
            "Corrupted file"@
        }),
        Some(_) => e == TksError::CryptoError,
    }
}

/// `f` is an items file that seals `plaintext` under `key` with `aad`, with a 12-byte IV.
pub open spec fn seals_items(key: Seq<u8>, aad: Seq<u8>, plaintext: Seq<u8>, f: Seq<u8>) -> bool {
    exists|iv: Seq<u8>, ct: Seq<u8>, tag: Seq<u8>|
        #![trigger items_file(iv, tag, ct)]
        iv.len() == 12 && tag.len() == 16 && ct.len() == plaintext.len() && aes_256_gcm_seal(key, iv, aad, plaintext)
            == (ct, tag) && aes_256_gcm_open(key, iv, aad, ct, tag) == Some(plaintext) && f == items_file(iv, tag, ct)
}

/// Law: an items file gives back what was written to it. A file that seals `plaintext`
/// under `key` and `aad` reads back, under the same key and `aad`, as exactly `plaintext`.
pub proof fn lemma_items_file_round_trip(key: Seq<u8>, aad: Seq<u8>, plaintext: Seq<u8>, f: Seq<u8>)
    requires
        seals_items(key, aad, plaintext, f),
    ensures
        items_file_plain(key, aad, f) == Some(plaintext),
{
    let (iv, ct, tag) = choose|iv: Seq<u8>, ct: Seq<u8>, tag: Seq<u8>|
        #![trigger items_file(iv, tag, ct)]
        iv.len() == 12 && tag.len() == 16 && ct.len() == plaintext.len() && aes_256_gcm_seal(key, iv, aad, plaintext)
            == (ct, tag) && aes_256_gcm_open(key, iv, aad, ct, tag) == Some(plaintext) && f == items_file(iv, tag, ct);
    lemma_items_file_parts(iv, tag, ct);
}

/// Law: the right password opens the commissioning data. Commissioning data sealed under
/// the key that a password and salt derive opens, under the key derived again from the same
/// password and salt, into exactly that data (so `check_commissioned_data` succeeds).
pub proof fn lemma_right_password_opens(password: Seq<u8>, salt: Seq<u8>, path: Seq<char>, data: Seq<u8>, f: Seq<u8>)
    requires
        seals_items(
            pbkdf2_hmac_sha512(password, salt, PBKDF2_ITERATIONS as nat, KEY_LEN as nat),
            encode_utf8(path),
            data,
            f,
        ),
    ensures
        items_file_plain(pbkdf2_hmac_sha512(password, salt, PBKDF2_ITERATIONS as nat, KEY_LEN as nat), encode_utf8(path), f)
            == Some(data),
{
    lemma_items_file_round_trip(
        pbkdf2_hmac_sha512(password, salt, PBKDF2_ITERATIONS as nat, KEY_LEN as nat),
        encode_utf8(path),
        data,
        f,
    );
}

/// Appends `s` to `v`.
pub fn append_bytes(v: &mut Vec<u8>, s: &[u8])
    ensures
        final(v)@ == old(v)@ + s@,
{
    let mut i: usize = 0;
    let ghost start = v@;
    while i < s.len()
        invariant
            i <= s@.len(),
            v@ == start + s@.subrange(0, i as int),
        decreases s@.len() - i,
    {
        v.push(s[i]);
        i = i + 1;
        assert(v@ =~= start + s@.subrange(0, i as int));
    }
    assert(s@.subrange(0, s@.len() as int) =~= s@);
}

/// Where the password handler stands.
#[derive(Debug, Clone, Copy, PartialEq, Eq, Structural)]
pub enum TksGcmPasswordSecretHandlerState {
    /// TKS is freshly installed or reconfigured: no password has been defined yet.
    NotCommissioned,
    /// A password was defined, but no password prompt has been answered yet.
    Locked,
    /// A password prompt was answered with the right password.
    KeyAvailable,
}

/// What the caller must do after a key was derived from a password.
#[derive(Debug)]
pub enum KeyDerivationStep {
    /// Store these bytes as the commissioning file: they seal the commissioning data
    /// under the new key.
    WriteCommissionedData(Vec<u8>),
    /// Read the commissioning file and hand it to `check_commissioned_data`.
    CheckCommissionedData,
}

/// Holds the storage key and checks passwords against the commissioning file.
pub struct TksGcmPasswordSecretHandler {
    pub state: TksGcmPasswordSecretHandlerState,
    pub salt: Vec<u8>,
    pub commissioned_data: Vec<u8>,
    pub commissioned_data_path: String,
    pub key: Vec<u8>,
}

impl TksGcmPasswordSecretHandler {
    /// The current storage key.
    pub open spec fn key(&self) -> Seq<u8> {
        self.key@
    }

    /// A handler in `state` holding an all-zero key.
    pub fn new(
        state: TksGcmPasswordSecretHandlerState,
        salt: Vec<u8>,
        commissioned_data: Vec<u8>,
        commissioned_data_path: String,
    ) -> (r: TksGcmPasswordSecretHandler)
        ensures
            r.state == state,
            r.salt@ == salt@,
            r.commissioned_data@ == commissioned_data@,
            r.commissioned_data_path@ == commissioned_data_path@,
            r.key() == Seq::new(KEY_LEN as nat, |i: int| 0u8),
    {
        let key = vec![0u8; KEY_LEN];
        let r = TksGcmPasswordSecretHandler { state, salt, commissioned_data, commissioned_data_path, key };
        assert(r.key() =~= Seq::new(KEY_LEN as nat, |i: int| 0u8));
        r
    }

    /// Seals `items` under the storage key, with `metadata` as additional authenticated
    /// data and a fresh random IV, and lays the result out as an items file.
    pub fn encrypt_aead(&self, metadata: &str, items: &[u8]) -> (r: Result<Vec<u8>, TksError>)
        requires
            encode_utf8(metadata@).len() <= c_int_max(),
            items@.len() <= c_int_max(),
            self.key().len() <= c_int_max(),
        ensures
            r matches Ok(f) ==> seals_items(self.key(), encode_utf8(metadata@), items@, f@),
            r matches Ok(f) ==> f@.len() == 29 + items@.len() && f@[0] == FILE_SCHEMA_VERSION,
            r matches Err(e) ==> e == TksError::CryptoError,
    {
        let iv = match random_bytes(12) {
            Ok(iv) => iv,
            Err(e) => return Err(TksError::from_openssl(e)),
        };
        let aad = metadata.as_bytes();
        let (ciphertext, tag) = match aes_256_gcm_encrypt(self.key.as_slice(), iv.as_slice(), aad, items) {
            Ok(sealed) => sealed,
            Err(e) => return Err(TksError::from_openssl(e)),
        };
        let mut encrypted: Vec<u8> = Vec::new();
        encrypted.push(FILE_SCHEMA_VERSION);
        append_bytes(&mut encrypted, iv.as_slice());
        append_bytes(&mut encrypted, tag.as_slice());
        append_bytes(&mut encrypted, ciphertext.as_slice());
        assert(encrypted@ =~= items_file(iv@, tag@, ciphertext@));
        Ok(encrypted)
    }

    /// Reads an items file and opens it under the storage key with `aad` as additional
    /// authenticated data.
    pub fn decrypt_aead(&self, aad: &str, encrypted: &[u8]) -> (r: Result<Vec<u8>, TksError>)
        requires
            encode_utf8(aad@).len() <= c_int_max(),
            encrypted@.len() <= c_int_max(),
            self.key().len() <= c_int_max(),
        ensures
            match items_file_plain(self.key(), encode_utf8(aad@), encrypted@) {
                Some(p) => r matches Ok(v) && v@ == p,
                None => r matches Err(e) && items_file_error(encrypted@, e),
            },
    {
        let n = encrypted.len();
        if n == 0 {
            return Err(TksError::SerializationError(from_literal("Corrupted file")));
        }
        if encrypted[0] != FILE_SCHEMA_VERSION {
            return Err(TksError::SerializationError(from_literal("Unknown file version")));
        }
        if n < 29 {
            return Err(TksError::SerializationError(from_literal("Corrupted file")));
        }
        let iv = vstd::slice::slice_subrange(encrypted, 1, 13);
        let tag = vstd::slice::slice_subrange(encrypted, 13, 29);
        let ciphertext = vstd::slice::slice_subrange(encrypted, 29, n);
        match aes_256_gcm_decrypt(self.key.as_slice(), iv, aad.as_bytes(), ciphertext, tag) {
            Ok(p) => Ok(p),
            Err(e) => Err(TksError::from_openssl(e)),
        }
    }

    /// Derives the storage key from `password` and the salt. A handler that was never
    /// commissioned seals its commissioning data under the new key and hands the bytes
    /// back to be stored; a locked handler asks for the stored commissioning file, which
    /// `check_commissioned_data` then checks against the new key.
    pub fn derive_key_from_password(&mut self, password: &[u8]) -> (r: Result<KeyDerivationStep, TksError>)
        requires
            old(self).state != TksGcmPasswordSecretHandlerState::KeyAvailable,
            password@.len() <= c_int_max(),
            old(self).salt@.len() <= c_int_max(),
            old(self).commissioned_data@.len() <= c_int_max(),
            encode_utf8(old(self).commissioned_data_path@).len() <= c_int_max(),
        ensures
            final(self).state == old(self).state,
            final(self).salt@ == old(self).salt@,
            final(self).commissioned_data@ == old(self).commissioned_data@,
            final(self).commissioned_data_path@ == old(self).commissioned_data_path@,
            r is Ok ==> final(self).key() == pbkdf2_hmac_sha512(
                password@,
                old(self).salt@,
                PBKDF2_ITERATIONS as nat,
                KEY_LEN as nat,
            ),
            r is Err ==> r == Err::<KeyDerivationStep, TksError>(TksError::CryptoError),
            old(self).state == TksGcmPasswordSecretHandlerState::Locked ==> (r is Ok ==> r matches Ok(
                KeyDerivationStep::CheckCommissionedData,
            )),
            old(self).state == TksGcmPasswordSecretHandlerState::NotCommissioned ==> (r matches Ok(s)
                ==> s matches KeyDerivationStep::WriteCommissionedData(f) && seals_items(
                final(self).key(),
                encode_utf8(old(self).commissioned_data_path@),
                old(self).commissioned_data@,
                f@,
            )),
    {
        let key = match pbkdf2_sha512(password, self.salt.as_slice(), PBKDF2_ITERATIONS, KEY_LEN) {
            Ok(k) => k,
            Err(e) => return Err(TksError::from_openssl(e)),
        };
        self.key = key;
        match self.state {
            TksGcmPasswordSecretHandlerState::NotCommissioned => {
                let encrypted = self.encrypt_aead(self.commissioned_data_path.as_str(), self.commissioned_data.as_slice())?;
                Ok(KeyDerivationStep::WriteCommissionedData(encrypted))
            },
            _ => Ok(KeyDerivationStep::CheckCommissionedData),
        }
    }
}


impl TksGcmPasswordSecretHandler {
    /// Checks the stored commissioning file against the derived key: when it opens, the
    /// password was right and the key becomes available.
    pub fn check_commissioned_data(&mut self, stored: &[u8]) -> (r: Result<(), TksError>)
        requires
            old(self).state == TksGcmPasswordSecretHandlerState::Locked,
            stored@.len() <= c_int_max(),
            old(self).key().len() <= c_int_max(),
            encode_utf8(old(self).commissioned_data_path@).len() <= c_int_max(),
        ensures
            final(self).salt@ == old(self).salt@,
            final(self).key() == old(self).key(),
            final(self).commissioned_data@ == old(self).commissioned_data@,
            final(self).commissioned_data_path@ == old(self).commissioned_data_path@,
            r is Ok ==> final(self).state == TksGcmPasswordSecretHandlerState::KeyAvailable,
            r is Err ==> final(self).state == old(self).state,
            r is Ok <==> items_file_plain(old(self).key(), encode_utf8(old(self).commissioned_data_path@), stored@) is Some,
            r matches Err(e) ==> items_file_error(stored@, e),
    {
        let _ = self.decrypt_aead(self.commissioned_data_path.as_str(), stored)?;
        self.state = TksGcmPasswordSecretHandlerState::KeyAvailable;
        Ok(())
    }
}

/// The TKS backend: where collection metadata and items files live, and the password
/// handler that holds the storage key.
pub struct TksGcmBackend {
    pub path: String,
    pub metadata_path: String,
    pub items_path: String,
    pub secrets_handler: TksGcmPasswordSecretHandler,
}

/// `s` followed by a separator and `name`, as `OsString::push` of the separator and of
/// `name` builds it.
pub open spec fn with_file_name(s: Seq<char>, name: Seq<char>) -> Seq<char> {
    s + seq!['/'] + name
}

/// The random bytes a first start of the backend generates for a missing salt file.
pub fn new_salt(existing: Option<Vec<u8>>) -> (r: Result<(Vec<u8>, bool), TksError>)
    ensures
        existing matches Some(v) ==> (r matches Ok((s, created)) && s@ == v@ && !created),
        existing is None ==> (r matches Ok((s, created)) ==> (s@.len() == RANDOM_FILE_LEN && created)),
        existing is None ==> (r is Err ==> r == Err::<(Vec<u8>, bool), TksError>(TksError::CryptoError)),
{
    match existing {
        Some(v) => Ok((v, false)),
        None => match random_bytes(RANDOM_FILE_LEN) {
            Ok(v) => Ok((v, true)),
            Err(e) => Err(TksError::from_openssl(e)),
        },
    }
}

/// Path `base` is a prefix of `path`, whole components matching, as `Path::starts_with`
/// decides.
pub uninterp spec fn path_has_prefix(path: Seq<char>, base: Seq<char>) -> bool;

/// `Path::new(path).starts_with(base)` of std.
#[verifier::external_body]
fn path_starts_with(path: &str, base: &str) -> (r: bool)
    ensures
        r == path_has_prefix(path@, base@),
{
    std::path::Path::new(path).starts_with(base)
}

impl TksGcmBackend {
    /// Sets up the backend rooted at `path` (the service's data directory), given the
    /// salt (read or freshly made by [`new_salt`]) and the content of the commissioning
    /// file when there is one. Without commissioning file, fresh random commissioning data
    /// is made and the backend waits for a password to be defined.
    pub fn new(path: &str, salt: Vec<u8>, commissioned: Option<Vec<u8>>) -> (r: Result<TksGcmBackend, TksError>)
        ensures
            r matches Ok(b) ==> {
                &&& b.path@ == path@
                &&& b.metadata_path@ == path@
                &&& b.items_path@ == path_join(path@, "items"@)
                &&& b.secrets_handler.salt@ == salt@
                &&& b.secrets_handler.commissioned_data_path@ == with_file_name(path@, "commissioned"@)
                &&& b.secrets_handler.key() == Seq::new(KEY_LEN as nat, |i: int| 0u8)
                &&& (commissioned matches Some(c) ==> b.secrets_handler.commissioned_data@ == c@
                    && b.secrets_handler.state == TksGcmPasswordSecretHandlerState::Locked)
                &&& (commissioned is None ==> b.secrets_handler.commissioned_data@.len() == RANDOM_FILE_LEN
                    && b.secrets_handler.state == TksGcmPasswordSecretHandlerState::NotCommissioned)
            },
            commissioned is Some ==> r is Ok,
            r is Err ==> r == Err::<TksGcmBackend, TksError>(TksError::CryptoError),
    {
        let metadata_path = from_literal(path);
        let items_path = join_path(path, "items");
        let mut commissioned_data_path = from_literal(path);
        commissioned_data_path.append("/");
        commissioned_data_path.append("commissioned");
        proof {
            reveal_strlit("/");
            assert(commissioned_data_path@ =~= with_file_name(path@, "commissioned"@));
        }
        let (state, commissioned_data) = match commissioned {
            Some(c) => (TksGcmPasswordSecretHandlerState::Locked, c),
            None => match random_bytes(RANDOM_FILE_LEN) {
                Ok(c) => (TksGcmPasswordSecretHandlerState::NotCommissioned, c),
                Err(e) => return Err(TksError::from_openssl(e)),
            },
        };
        let secrets_handler = TksGcmPasswordSecretHandler::new(
            state,
            salt,
            commissioned_data,
            commissioned_data_path,
        );
        Ok(TksGcmBackend { path: from_literal(path), metadata_path, items_path, secrets_handler })
    }

    /// Checks that `items_path` lies in the backend's items directory; all collections of
    /// this backend share one key, so there is nothing else to unlock.
    pub fn unlock_items(&self, items_path: &str) -> (r: Result<String, TksError>)
        ensures
            path_has_prefix(items_path@, self.items_path@) ==> (r matches Ok(s) && s@.len() == 0),
            !path_has_prefix(items_path@, self.items_path@) ==> (r matches Err(TksError::InternalError(m)) && m@
                == "Items path not within the correct directory"@),
    {
        if !path_starts_with(items_path, self.items_path.as_str()) {
            return Err(TksError::InternalError(from_literal("Items path not within the correct directory")));
        }
        Ok(String::new())
    }

    /// Whether the file called `name` in the backend's directory holds a collection's
    /// metadata: every file but the salt and the commissioning file does (the items live in
    /// their own directory).
    pub fn is_collection_file(&self, name: &str) -> (r: bool)
        ensures
            r == (name@ != "salt"@ && name@ != "commissioned"@),
    {
        proof {
            reveal_strlit("salt");
            reveal_strlit("commissioned");
        }
        !same_text(name, "salt") && !same_text(name, "commissioned")
    }

    pub fn get_kind(&self) -> (r: StorageBackendType)
        ensures
            r == StorageBackendType::TksGcm,
    {
        StorageBackendType::TksGcm
    }

    /// Where a new collection called `name` keeps its metadata and its items.
    pub fn new_metadata_path(&self, name: &str) -> (r: Result<(String, String), TksError>)
        ensures
            r matches Ok((m, i)) && m@ == path_join(self.metadata_path@, name@)
                && i@ == path_join(self.items_path@, name@),
    {
        Ok((join_path(self.metadata_path.as_str(), name), join_path(self.items_path.as_str(), name)))
    }

    /// Where the collection called `name` keeps its items.
    pub fn collection_items_path(&self, name: &str) -> (r: Result<String, TksError>)
        ensures
            r matches Ok(i) && i@ == path_join(self.items_path@, name@),
    {
        Ok(join_path(self.items_path.as_str(), name))
    }

    /// The password handler.
    pub fn get_secrets_handler(&mut self) -> (r: &mut TksGcmPasswordSecretHandler)
        ensures
            *r == old(self).secrets_handler,
            final(self).path == old(self).path,
            final(self).metadata_path == old(self).metadata_path,
            final(self).items_path == old(self).items_path,
            final(self).secrets_handler == *final(r),
    {
        &mut self.secrets_handler
    }

    /// The password dialog that unlocks the storage (all collections of this backend share
    /// the password). Before commissioning the user defines the password and confirms it.
    pub fn create_unlock_action(&mut self, coll_uuid: u128, coll_name: &str) -> (r: Result<PromptAction, TksError>)
        ensures
            *final(self) == *old(self),
            r matches Ok(a) && a.dialog matches PromptDialog::PassphraseInput(description, prompt, confirmation, mismatch, action)
                && prompt@ == "Password"@ && action == PassphraseAction::UnlockStorage
                && (old(self).secrets_handler.state == TksGcmPasswordSecretHandlerState::NotCommissioned ==> {
                    &&& description@ == "Define the TKS unlock password, so we can store the new collection '"@ + coll_name@ + "'"@
                    &&& confirmation matches Some(c) && c@ == "Confirm password"@
                    &&& mismatch matches Some(m) && m@ == "Passwords do not match"@
                })
                && (old(self).secrets_handler.state != TksGcmPasswordSecretHandlerState::NotCommissioned ==> {
                    &&& description@ == "Enter the TKS unlock password, so we can unlock the collection '"@ + coll_name@ + "'"@
                    &&& confirmation is None
                    &&& mismatch is None
                }),
    {
        let not_commissioned = self.secrets_handler.state == TksGcmPasswordSecretHandlerState::NotCommissioned;
        let description = if not_commissioned {
            from_literal("Define the TKS unlock password, so we can store the new collection '")
        } else {
            from_literal("Enter the TKS unlock password, so we can unlock the collection '")
        };
        let description = description.concat(coll_name).concat("'");
        let confirmation = if not_commissioned { Some(from_literal("Confirm password")) } else { None };
        let mismatch = if not_commissioned { Some(from_literal("Passwords do not match")) } else { None };
        Ok(PromptAction {
            dialog: PromptDialog::PassphraseInput(
                description,
                from_literal("Password"),
                confirmation,
                mismatch,
                PassphraseAction::UnlockStorage,
            ),
        })
    }

    /// The storage stays locked until a password prompt was answered with the right
    /// password.
    pub fn is_locked(&self) -> (r: bool)
        ensures
            r == (self.secrets_handler.state != TksGcmPasswordSecretHandlerState::KeyAvailable),
    {
        self.secrets_handler.state != TksGcmPasswordSecretHandlerState::KeyAvailable
    }

    /// The content of the items file that holds `item_data`, authenticated with `aad`.
    pub fn save_collection_items(&self, aad: &str, item_data: &[u8]) -> (r: Result<Vec<u8>, TksError>)
        requires
            encode_utf8(aad@).len() <= c_int_max(),
            item_data@.len() <= c_int_max(),
            self.secrets_handler.key().len() <= c_int_max(),
        ensures
            r matches Ok(f) ==> seals_items(self.secrets_handler.key(), encode_utf8(aad@), item_data@, f@),
            r matches Ok(f) ==> f@.len() == 29 + item_data@.len() && f@[0] == FILE_SCHEMA_VERSION,
            r matches Err(e) ==> e == TksError::CryptoError,
    {
        self.secrets_handler.encrypt_aead(aad, item_data)
    }

    /// The item secrets held in a collection's items file (`None` when there is no such
    /// file, which stands for an empty collection).
    pub fn load_collection_items(&self, items_file_content: Option<&[u8]>, aad: &str) -> (r: Result<Vec<u8>, TksError>)
        requires
            encode_utf8(aad@).len() <= c_int_max(),
            items_file_content matches Some(f) ==> f@.len() <= c_int_max(),
            self.secrets_handler.key().len() <= c_int_max(),
        ensures
            items_file_content is None ==> (r matches Ok(v) && v@.len() == 0),
            items_file_content matches Some(f) ==> match items_file_plain(self.secrets_handler.key(), encode_utf8(aad@), f@) {
                Some(p) => r matches Ok(v) && v@ == p,
                None => r matches Err(e) && items_file_error(f@, e),
            },
    {
        match items_file_content {
            Some(encrypted) => self.secrets_handler.decrypt_aead(aad, encrypted),
            None => Ok(Vec::new()),
        }
    }
}

} // verus!
