//! Sessions: the transport-encryption contexts that clients open before exchanging
//! secrets with the service.

use vstd::prelude::*;
use crate::crypto::{
    aes_128_cbc_decrypt, aes_128_cbc_decrypt_bytes, aes_128_cbc_encrypt, aes_128_cbc_encrypt_bytes,
    c_int_max, dh_ietf1024_agree, hkdf_sha256, hkdf_sha256_derive, random_block,
};
use crate::error::TksError;
use vec_map::VecMap;
use crate::text::{from_literal, same_text};
use crate::tks_dbus::{numbered_path, session_path, DBusHandle, DBusHandlePath, PathsView};

verus! {

/// The algorithm that exchanges secrets in the clear.
pub open spec fn plain_algorithm() -> Seq<char> {
    "plain"@
}

/// Diffie-Hellman key agreement, HKDF-SHA256, then AES-128-CBC with PKCS#7 padding.
pub open spec fn dh_aes_algorithm() -> Seq<char> {
    "dh-ietf1024-sha256-aes128-cbc-pkcs7"@
}

/// The two algorithms have different names.
pub proof fn lemma_algorithms_differ()
    ensures
        plain_algorithm() != dh_aes_algorithm(),
{
    reveal_strlit("plain");
    reveal_strlit("dh-ietf1024-sha256-aes128-cbc-pkcs7");
    assert(plain_algorithm().len() != dh_aes_algorithm().len());
}

/// Number of bytes derived by HKDF from the Diffie-Hellman secret.
pub const DERIVED_KEY_MATERIAL_LEN: usize = 128;

/// Length of the AES-128 session key.
pub const SESSION_KEY_LEN: usize = 16;

/// The all-zero HKDF salt.
pub open spec fn zero_salt() -> Seq<u8> {
    Seq::new(32, |i: int| 0u8)
}

/// A session opened by a client.
pub struct Session {
    pub id: usize,
    pub algorithm: String,
    pub aes_key_bytes: Option<Vec<u8>>,
}

/// The D-Bus object of a session.
#[derive(Debug, Clone, Copy)]
pub struct SessionImpl {
    pub id: usize,
}

/// Output of an encryption, as text.
#[derive(Debug)]
pub struct EncryptedOutput {
    pub data: String,
}

/// Copies a byte slice into a new vector.
pub fn copy_bytes(s: &[u8]) -> (r: Vec<u8>)
    ensures
        r@ == s@,
{
    vstd::slice::slice_to_vec(s)
}

impl SessionImpl {
    /// Closes the session; its object is then unpublished.
    pub fn close(&self, sessions: &mut SessionManager) -> (r: Result<(), String>)
        ensures
            r is Ok,
            final(sessions).table() == old(sessions).table().remove(self.id),
            final(sessions).next_session_id == old(sessions).next_session_id,
            old(sessions).wf() ==> final(sessions).wf(),
    {
        sessions.close_session(self.id);
        Ok(())
    }
}

impl DBusHandle for SessionImpl {
    open spec fn handle_path(&self) -> PathsView {
        PathsView::Single(session_path(self.id as nat))
    }

    fn path(&self) -> (r: DBusHandlePath) {
        DBusHandlePath::SinglePath(numbered_path("/org/freedesktop/secrets/session/", self.id))
    }
}

impl Session {
    pub open spec fn is_plain(&self) -> bool {
        self.algorithm@ == plain_algorithm()
    }

    pub open spec fn is_dh_aes(&self) -> bool {
        self.algorithm@ == dh_aes_algorithm()
    }

    /// The session can encrypt and decrypt: a Diffie-Hellman session has its AES key, and
    /// a key is an AES-128 key.
    pub open spec fn usable(&self) -> bool {
        &&& (self.is_dh_aes() ==> self.aes_key_bytes is Some)
        &&& (self.key() matches Some(k) ==> k.len() == SESSION_KEY_LEN)
    }

    /// The session key, when the key agreement took place.
    pub open spec fn key(&self) -> Option<Seq<u8>> {
        match self.aes_key_bytes {
            Some(k) => Some(k@),
            None => None,
        }
    }

    /// `output` with `iv` is what encrypting `input` in this session may give (the IV is
    /// chance); decrypting it with that IV gives `input` back.
    pub open spec fn encrypts_to(&self, input: Seq<u8>, iv: Seq<u8>, output: Seq<u8>) -> bool {
        if self.is_plain() {
            iv.len() == 0 && output == input
        } else if self.is_dh_aes() {
            &&& self.key() matches Some(k)
            &&& iv.len() == 16
            &&& output == aes_128_cbc_encrypt(k, iv, input)
            &&& aes_128_cbc_decrypt(k, iv, output) == Some(input)
        } else {
            false
        }
    }

    /// What decrypting `input` sent with `iv` gives in this session: the input itself in
    /// the clear; with the Diffie-Hellman algorithm, the AES-128-CBC plaintext under the
    /// session key when the IV has 16 bytes and the padding is right; nothing otherwise.
    pub open spec fn decrypted(&self, iv: Seq<u8>, input: Seq<u8>) -> Option<Seq<u8>> {
        if self.is_plain() {
            Some(input)
        } else if self.is_dh_aes() {
            match self.key() {
                Some(k) => if iv.len() == 16 {
                    aes_128_cbc_decrypt(k, iv, input)
                } else {
                    None
                },
                None => None,
            }
        } else {
            None
        }
    }

    /// `output` is what decrypting `input` with `iv` in this session gives.
    pub open spec fn decrypts_to(&self, iv: Seq<u8>, input: Seq<u8>, output: Seq<u8>) -> bool {
        self.decrypted(iv, input) == Some(output)
    }

    /// A new session `id` for `algorithm`, before any key agreement.
    pub fn new(id: usize, algorithm: String) -> (r: Session)
        ensures
            r.id == id,
            r.algorithm@ == algorithm@,
            r.aes_key_bytes is None,
    {
        Session { id, algorithm, aes_key_bytes: None }
    }

    pub fn get_dbus_handle(&self) -> (r: SessionImpl)
        ensures
            r.id == self.id,
    {
        SessionImpl { id: self.id }
    }

    fn is_plain_exec(&self) -> (r: bool)
        ensures
            r == self.is_plain(),
    {
        proof { reveal_strlit("plain"); }
        same_text(self.algorithm.as_str(), "plain")
    }

    fn is_dh_aes_exec(&self) -> (r: bool)
        ensures
            r == self.is_dh_aes(),
    {
        same_text(self.algorithm.as_str(), "dh-ietf1024-sha256-aes128-cbc-pkcs7")
    }

    /// The outcome of a successful key agreement: the session key is the start of the HKDF
    /// output for some shared secret.
    pub open spec fn agreed_key(&self, key: Seq<u8>) -> bool {
        exists|shared: Seq<u8>| #![trigger hkdf_sha256(zero_salt(), shared, DERIVED_KEY_MATERIAL_LEN as nat)]
            key == hkdf_sha256(zero_salt(), shared, DERIVED_KEY_MATERIAL_LEN as nat).subrange(
                0,
                SESSION_KEY_LEN as int,
            )
    }

    /// Runs the key agreement of the session's algorithm with the client's `input`:
    /// `plain` takes no input and gives none; the Diffie-Hellman algorithm takes the client's
    /// public key, keeps the derived AES key and gives back the service's public key.
    pub fn get_shared_secret(&mut self, input: Option<&Vec<u8>>) -> (r: Result<Option<Vec<u8>>, TksError>)
        requires
            input matches Some(i) ==> i@.len() <= c_int_max(),
        ensures
            final(self).id == old(self).id,
            final(self).algorithm@ == old(self).algorithm@,
            old(self).is_plain() ==> final(self).aes_key_bytes == old(self).aes_key_bytes,
            old(self).is_plain() && input is Some ==> r == Err::<Option<Vec<u8>>, TksError>(TksError::ParameterError),
            old(self).is_plain() && input is None ==> r matches Ok(None),
            old(self).is_dh_aes() && input is None ==> r == Err::<Option<Vec<u8>>, TksError>(TksError::ParameterError)
                && final(self).aes_key_bytes == old(self).aes_key_bytes,
            old(self).is_dh_aes() && input is Some ==> match r {
                Ok(out) => out matches Some(p) && p@.len() <= 128 && (final(self).key() matches Some(k) && k.len() == SESSION_KEY_LEN
                    && final(self).agreed_key(k)),
                Err(e) => e == TksError::CryptoError && final(self).aes_key_bytes == old(self).aes_key_bytes,
            },
            !old(self).is_plain() && !old(self).is_dh_aes() ==> r == Err::<Option<Vec<u8>>, TksError>(TksError::ParameterError)
                && final(self).aes_key_bytes == old(self).aes_key_bytes,
    {
        proof { lemma_algorithms_differ(); }
        if self.is_plain_exec() {
            match input {
                Some(_) => Err(TksError::ParameterError),
                None => Ok(None),
            }
        } else if self.is_dh_aes_exec() {
            match input {
                Some(input) => {
                    let (public_key, shared) = match dh_ietf1024_agree(input.as_slice()) {
                        Ok(pair) => pair,
                        Err(e) => return Err(TksError::from_openssl(e)),
                    };
                    let salt = vec![0u8; 32];
                    assert(salt@ =~= zero_salt());
                    let aes_bytes = match hkdf_sha256_derive(salt.as_slice(), shared.as_slice(), DERIVED_KEY_MATERIAL_LEN) {
                        Ok(k) => k,
                        Err(e) => return Err(TksError::from_openssl(e)),
                    };
                    let key = copy_bytes(vstd::slice::slice_subrange(aes_bytes.as_slice(), 0, SESSION_KEY_LEN));
                    self.aes_key_bytes = Some(key);
                    assert(self.agreed_key(key@)) by {
                        assert(key@ == hkdf_sha256(zero_salt(), shared@, DERIVED_KEY_MATERIAL_LEN as nat).subrange(0, SESSION_KEY_LEN as int));
                    }
                    Ok(Some(public_key))
                },
                None => Err(TksError::ParameterError),
            }
        } else {
            Err(TksError::ParameterError)
        }
    }

    /// Decrypts a secret sent by the client in this session.
    pub fn decrypt(&self, iv: &Vec<u8>, input: &Vec<u8>) -> (r: Result<Vec<u8>, TksError>)
        requires
            iv@.len() <= c_int_max(),
            input@.len() <= c_int_max(),
            self.key() matches Some(k) ==> k.len() <= c_int_max(),
        ensures
            match self.decrypted(iv@, input@) {
                Some(p) => r matches Ok(v) && v@ == p,
                None => r matches Err(e) && e == (if self.is_dh_aes() {
                    TksError::CryptoError
                } else {
                    TksError::ParameterError
                }),
            },
    {
        proof { lemma_algorithms_differ(); }
        if self.is_plain_exec() {
            Ok(copy_bytes(input.as_slice()))
        } else if self.is_dh_aes_exec() {
            if iv.len() != 16 {
                return Err(TksError::CryptoError);
            }
            match &self.aes_key_bytes {
                None => Err(TksError::CryptoError),
                Some(key) => match aes_128_cbc_decrypt_bytes(key.as_slice(), iv.as_slice(), input.as_slice()) {
                    Ok(v) => Ok(v),
                    Err(e) => Err(TksError::from_openssl(e)),
                },
            }
        } else {
            Err(TksError::ParameterError)
        }
    }

    /// Encrypts a secret to send to the client in this session, returning the IV (empty in
    /// the clear) and the encrypted secret.
    pub fn encrypt(&self, input: &Vec<u8>) -> (r: Result<(Vec<u8>, Vec<u8>), TksError>)
        requires
            self.is_dh_aes() ==> self.aes_key_bytes is Some,
            input@.len() <= c_int_max(),
            self.key() matches Some(k) ==> k.len() <= c_int_max(),
        ensures
            self.is_plain() ==> (r matches Ok((iv, out)) && iv@.len() == 0 && out@ == input@),
            self.is_dh_aes() ==> (r matches Err(e) ==> e == TksError::CryptoError),
            !self.is_plain() && !self.is_dh_aes() ==> r == Err::<(Vec<u8>, Vec<u8>), TksError>(TksError::ParameterError),
            r matches Ok((iv, out)) ==> self.encrypts_to(input@, iv@, out@) && iv@.len() <= 16
                && out@.len() <= input@.len() + 16,
    {
        proof { lemma_algorithms_differ(); }
        if self.is_plain_exec() {
            Ok((Vec::new(), copy_bytes(input.as_slice())))
        } else if self.is_dh_aes_exec() {
            let iv = random_block();
            let key = self.aes_key_bytes.as_ref().unwrap();
            match aes_128_cbc_encrypt_bytes(key.as_slice(), iv.as_slice(), input.as_slice()) {
                Ok(out) => {
                    proof {
                        let n = input@.len() as int;
                        assert((n / 16) * 16 <= n) by (nonlinear_arith);
                    }
                    Ok((iv, out))
                },
                Err(e) => Err(TksError::from_openssl(e)),
            }
        } else {
            Err(TksError::ParameterError)
        }
    }
}

/// Law: a session gives back what it encrypted. Whatever encrypting `input` produced in a
/// session, decrypting it with the same IV in the same session gives exactly `input`.
pub proof fn lemma_session_round_trip(s: Session, input: Seq<u8>, iv: Seq<u8>, sealed: Seq<u8>)
    requires
        s.encrypts_to(input, iv, sealed),
    ensures
        s.decrypted(iv, sealed) == Some(input),
{
    lemma_algorithms_differ();
}


/// The `vec_map` crate's map from small integers to values.
#[verifier::external_type_specification]
#[verifier::external_body]
#[verifier::reject_recursive_types(V)]
pub struct ExVecMap<V>(VecMap<V>);

/// The sessions a `VecMap` holds, by id.
pub uninterp spec fn session_table(m: VecMap<Session>) -> Map<usize, Session>;

/// The table without any session.
pub open spec fn no_sessions() -> Map<usize, Session> {
    Map::empty()
}

/// An empty map of sessions.
///
/// Trusted: calls `VecMap::new`, which makes an empty map.
#[verifier::external_body]
fn sessions_new() -> (sessions: VecMap<Session>)
    ensures
        session_table(sessions) == no_sessions(),
{
    vec_map::VecMap::new()
}

/// Puts `session` under `id`, returning the session it replaces.
///
/// Trusted: calls `VecMap::insert`, which stores the value at the key and returns the
/// previous value. It grows its vector to `id + 1` slots, which overflows for `usize::MAX`,
/// hence the `requires`.
#[verifier::external_body]
fn sessions_insert(m: &mut VecMap<Session>, id: usize, session: Session) -> (r: Option<Session>)
    requires
        id < usize::MAX,
    ensures
        session_table(*final(m)) == session_table(*old(m)).insert(id, session),
        session_table(*old(m)).dom().contains(id) ==> r == Some(session_table(*old(m))[id]),
        !session_table(*old(m)).dom().contains(id) ==> r is None,
{
    m.insert(id, session)
}

/// Takes the session under `id` out of the map.
///
/// Trusted: calls `VecMap::remove`, which removes the key and returns its value.
#[verifier::external_body]
fn sessions_remove(m: &mut VecMap<Session>, id: usize) -> (r: Option<Session>)
    ensures
        session_table(*final(m)) == session_table(*old(m)).remove(id),
        session_table(*old(m)).dom().contains(id) ==> r == Some(session_table(*old(m))[id]),
        !session_table(*old(m)).dom().contains(id) ==> r is None,
{
    m.remove(id)
}

/// The session under `id`, if any.
///
/// Trusted: calls `VecMap::get`, which returns the value stored at the key.
#[verifier::external_body]
fn sessions_get(m: &VecMap<Session>, id: usize) -> (r: Option<&Session>)
    ensures
        session_table(*m).dom().contains(id) ==> r == Some(&session_table(*m)[id]),
        !session_table(*m).dom().contains(id) ==> r is None,
{
    m.get(id)
}

/// The open sessions, and the id the next one gets.
pub struct SessionManager {
    pub next_session_id: usize,
    pub sessions: VecMap<Session>,
}

impl DBusHandle for SessionManager {
    open spec fn handle_path(&self) -> PathsView {
        PathsView::Single("/org/freedesktop/secrets/session"@)
    }

    fn path(&self) -> (r: DBusHandlePath) {
        DBusHandlePath::SinglePath(from_literal("/org/freedesktop/secrets/session"))
    }
}

impl SessionManager {
    /// The open sessions by id.
    pub open spec fn table(&self) -> Map<usize, Session> {
        session_table(self.sessions)
    }

    /// Every open session is filed under its own id, every id is below the next one, and
    /// every open session is usable.
    pub open spec fn wf(&self) -> bool {
        forall|k: usize| #[trigger] self.table().dom().contains(k) ==> k < self.next_session_id
            && self.table()[k].id == k && self.table()[k].usable()
    }

    pub fn new() -> (r: SessionManager)
        ensures
            r.next_session_id == 0,
            r.table() == no_sessions(),
            r.wf(),
    {
        SessionManager { next_session_id: 0, sessions: sessions_new() }
    }

    /// Opens a session for `algorithm`, running its key agreement with the client's `input`.
    /// Returns the new session's id and the service's side of the key agreement. The id is
    /// used up even when the key agreement fails.
    pub fn new_session(&mut self, algorithm: String, input: Option<&Vec<u8>>) -> (r: Result<
        (usize, Option<Vec<u8>>),
        TksError,
    >)
        requires
            old(self).next_session_id < usize::MAX,
            input matches Some(i) ==> i@.len() <= c_int_max(),
        ensures
            final(self).next_session_id == old(self).next_session_id + 1,
            old(self).wf() ==> final(self).wf(),
            r is Err ==> final(self).table() == old(self).table(),
            r matches Ok((id, out)) ==> {
                &&& id == old(self).next_session_id
                &&& final(self).table() == old(self).table().insert(id, final(self).table()[id])
                &&& final(self).table()[id].id == id
                &&& final(self).table()[id].algorithm@ == algorithm@
                &&& (algorithm@ == plain_algorithm() ==> out is None && final(self).table()[id].aes_key_bytes is None)
                &&& (algorithm@ == dh_aes_algorithm() ==> (out matches Some(pk) && pk@.len() <= 128) && (final(self).table()[id].key() matches Some(k)
                    && k.len() == SESSION_KEY_LEN && final(self).table()[id].agreed_key(k)))
            },
            algorithm@ == plain_algorithm() ==> (r is Ok <==> input is None),
            algorithm@ != plain_algorithm() && algorithm@ != dh_aes_algorithm() ==> r
                == Err::<(usize, Option<Vec<u8>>), TksError>(TksError::ParameterError),
            algorithm@ == dh_aes_algorithm() && input is None ==> r
                == Err::<(usize, Option<Vec<u8>>), TksError>(TksError::ParameterError),
            algorithm@ == dh_aes_algorithm() && input is Some && r is Err ==> r
                == Err::<(usize, Option<Vec<u8>>), TksError>(TksError::CryptoError),
    {
        proof { lemma_algorithms_differ(); }
        let session_num = self.next_session_id;
        self.next_session_id = self.next_session_id + 1;
        let mut session = Session::new(session_num, algorithm);
        let output = session.get_shared_secret(input)?;
        let _ = sessions_insert(&mut self.sessions, session_num, session);
        assert(self.table() =~= old(self).table().insert(session_num, self.table()[session_num]));
        Ok((session_num, output))
    }

    /// Closes session `id`.
    pub fn close_session(&mut self, id: usize)
        ensures
            final(self).table() == old(self).table().remove(id),
            final(self).next_session_id == old(self).next_session_id,
            old(self).wf() ==> final(self).wf(),
    {
        let _ = sessions_remove(&mut self.sessions, id);
    }

    /// Law: the id the next session gets is not in use.
    pub proof fn lemma_next_id_is_fresh(&self)
        requires
            self.wf(),
        ensures
            !self.table().dom().contains(self.next_session_id),
    {
    }

    /// The open session `id`, if any.
    pub fn get_session(&self, id: usize) -> (r: Option<&Session>)
        ensures
            self.table().dom().contains(id) ==> r == Some(&self.table()[id]),
            !self.table().dom().contains(id) ==> r is None,
    {
        sessions_get(&self.sessions, id)
    }
}
} // verus!
