//! The client processes known to the service, and the confirmation asked of the user
//! before an unknown one may use it.

use vstd::prelude::*;
use crate::crypto::{sha256_digest, sha256_of};
use crate::error::TksError;
use crate::storage::tks_gcm::append_bytes;
use crate::text::{from_literal, same_text};
use crate::tks_dbus::prompt_impl::{
    ConfirmationAction, ConfirmationMessageActionParam, PromptAction, PromptDialog, PromptRegistry, PromptWithPinentry,
    TksPrompt,
};
use crate::tks_dbus::prompt_path;

verus! {

/// The text `{:?}` gives for a string: the string quoted, with its special characters
/// escaped.
pub uninterp spec fn debug_text(s: Seq<char>) -> Seq<char>;

/// std's `Debug` for `str`, through `format!("{:?}", ..)`.
#[verifier::external_body]
fn debug_quoted(s: &str) -> (r: String)
    ensures
        r@ == debug_text(s@),
{
    format!("{:?}", s)
}

/// Size of the buffer in which a client's executable is read and hashed.
pub const EXE_CHUNK_LEN: usize = 1024;

/// `chunk` filled up with zeros to a whole buffer.
pub open spec fn padded(chunk: Seq<u8>) -> Seq<u8> {
    chunk + Seq::new((EXE_CHUNK_LEN - chunk.len()) as nat, |i: int| 0u8)
}

/// The buffers that reading `chunks` one after another fills, each hashed whole.
pub open spec fn padded_concat(chunks: Seq<Vec<u8>>) -> Seq<u8>
    decreases chunks.len(),
{
    if chunks.len() == 0 {
        Seq::empty()
    } else {
        padded_concat(chunks.drop_last()) + padded(chunks.last()@)
    }
}

/// The digest of a client's executable read as `chunks` (what each read of a buffer of
/// `EXE_CHUNK_LEN` bytes gave, up to the first empty read): every buffer is hashed whole,
/// the bytes a short read left untouched being zeros.
pub fn exe_digest(chunks: &Vec<Vec<u8>>) -> (r: [u8; 32])
    requires
        forall|i: int| 0 <= i < chunks@.len() ==> (#[trigger] chunks@[i])@.len() <= EXE_CHUNK_LEN,
    ensures
        r@ == sha256_of(padded_concat(chunks@)),
{
    let mut data: Vec<u8> = Vec::new();
    let mut k: usize = 0;
    while k < chunks.len()
        invariant
            k <= chunks@.len(),
            forall|i: int| 0 <= i < chunks@.len() ==> (#[trigger] chunks@[i])@.len() <= EXE_CHUNK_LEN,
            data@ == padded_concat(chunks@.take(k as int)),
        decreases chunks@.len() - k,
    {
        let ghost before = data@;
        let chunk = &chunks[k];
        append_bytes(&mut data, chunk.as_slice());
        let mut n: usize = chunk.len();
        while n < EXE_CHUNK_LEN
            invariant
                chunk@.len() <= n <= EXE_CHUNK_LEN,
                data@ == before + chunk@ + Seq::new((n - chunk@.len()) as nat, |i: int| 0u8),
            decreases EXE_CHUNK_LEN - n,
        {
            data.push(0u8);
            n = n + 1;
            assert(data@ =~= before + chunk@ + Seq::new((n - chunk@.len()) as nat, |i: int| 0u8));
        }
        proof {
            let next = chunks@.take(k + 1);
            assert(next.drop_last() =~= chunks@.take(k as int));
            assert(next.last() == chunks@[k as int]);
            assert(data@ =~= before + padded(chunk@));
        }
        k = k + 1;
    }
    assert(chunks@.take(chunks@.len() as int) =~= chunks@);
    sha256_digest(data.as_slice())
}

/// A process that called the service: its bus name and the path of its executable.
#[derive(Debug)]
pub struct TksClientProcess {
    pub name: String,
    pub exe_path: String,
}

impl Clone for TksClientProcess {
    fn clone(&self) -> (r: TksClientProcess)
        ensures
            r.name@ == self.name@,
            r.exe_path@ == self.exe_path@,
    {
        TksClientProcess { name: self.name.clone(), exe_path: self.exe_path.clone() }
    }
}

/// A client known to the service.
#[derive(Debug, Clone, Copy)]
pub struct TksClient {}

/// What the service knows of a calling process: a known client, or the path of the prompt
/// that asks the user whether to accept it.
pub enum TksClientOption {
    Prompt(String),
    Client(TksClient),
}

/// A prompt to enroll a client process.
#[derive(Debug)]
pub struct EnrollClientPrompt {
    pub client_process: TksClientProcess,
}

impl EnrollClientPrompt {
    pub fn new(client: &TksClientProcess) -> (r: EnrollClientPrompt)
        ensures
            r.client_process.name@ == client.name@,
            r.client_process.exe_path@ == client.exe_path@,
    {
        EnrollClientPrompt { client_process: client.clone() }
    }
}

/// The question asked of the user about the process running `exe_path`.
pub open spec fn new_client_question(exe_path: Seq<char>) -> Seq<char> {
    "An application having the process executable "@ + debug_text(exe_path)
        + " wants to let Tks handle their secrets. Should we accept this?"@
}

/// `p` is prompt `id`, which asks the user to accept the process running `exe_path` and
/// then records it.
pub open spec fn is_new_client_prompt(p: TksPrompt, id: usize, exe_path: Seq<char>) -> bool {
    match p {
        TksPrompt::Pinentry(pp) => pp.prompt_id == id && match pp.action.dialog {
            PromptDialog::ConfirmationMessage(yes, no, question, param, action) => {
                &&& yes@ == "Yes"@
                &&& no@ == "No"@
                &&& question@ == new_client_question(exe_path)
                &&& (match param {
                    ConfirmationMessageActionParam::ConfirmNewClient(exe) => exe@ == exe_path,
                    _ => false,
                })
                &&& action == ConfirmationAction::RegisterClient
            },
            _ => false,
        },
        _ => false,
    }
}

/// The known clients, by the path of their executable.
pub struct ClientRegistry {
    pub known_clients: Vec<(String, TksClient)>,
}

impl ClientRegistry {
    /// The executable paths of the known clients.
    pub open spec fn known(&self) -> Seq<Seq<char>> {
        self.known_clients@.map_values(|e: (String, TksClient)| e.0@)
    }

    /// Each executable path is known once.
    pub open spec fn wf(&self) -> bool {
        self.known().no_duplicates()
    }

    pub fn new() -> (r: ClientRegistry)
        ensures
            r.known().len() == 0,
            r.wf(),
    {
        ClientRegistry { known_clients: Vec::new() }
    }

    /// The position of the client running `exe_path`, if it is known.
    fn position(&self, exe_path: &str) -> (r: Option<usize>)
        ensures
            r matches Some(k) ==> k < self.known().len() && self.known()[k as int] == exe_path@,
            r is None ==> !self.known().contains(exe_path@),
    {
        let mut k: usize = 0;
        while k < self.known_clients.len()
            invariant
                k <= self.known_clients@.len(),
                forall|m: int| 0 <= m < k ==> self.known_clients@[m].0@ != exe_path@,
            decreases self.known_clients@.len() - k,
        {
            if same_text(self.known_clients[k].0.as_str(), exe_path) {
                return Some(k);
            }
            k = k + 1;
        }
        assert forall|m: int| 0 <= m < self.known().len() implies #[trigger] self.known()[m] != exe_path@ by {
            assert(self.known()[m] == self.known_clients@[m].0@);
        }
        None
    }

    /// What the service knows of `process`: the client when it is known; otherwise a new
    /// prompt, registered in `prompts`, that asks the user to accept it and then records it.
    pub fn retrieve(&mut self, process: &TksClientProcess, prompts: &mut PromptRegistry) -> (r: Result<
        TksClientOption,
        TksError,
    >)
        requires
            old(prompts).counter < usize::MAX,
        ensures
            final(self).known() == old(self).known(),
            old(self).known().contains(process.exe_path@) ==> (r matches Ok(TksClientOption::Client(_)))
                && *final(prompts) == *old(prompts),
            !old(self).known().contains(process.exe_path@) ==> {
                let id = final(prompts).counter;
                &&& id == old(prompts).counter + 1
                &&& r matches Ok(TksClientOption::Prompt(p)) && p@ == prompt_path(id as nat)
                &&& final(prompts).prompts@.dom() == old(prompts).prompts@.dom().insert(id)
                &&& forall|k: usize| k != id && #[trigger] old(prompts).prompts@.contains_key(k)
                    ==> final(prompts).prompts@[k] == old(prompts).prompts@[k]
                &&& is_new_client_prompt(final(prompts).prompts@[id], id, process.exe_path@)
                &&& old(prompts).wf() ==> final(prompts).wf()
            },
    {
        match self.position(process.exe_path.as_str()) {
            Some(k) => Ok(TksClientOption::Client(self.known_clients[k].1)),
            None => {
                let question = from_literal("An application having the process executable ")
                    .concat(debug_quoted(process.exe_path.as_str()).as_str())
                    .concat(" wants to let Tks handle their secrets. Should we accept this?");
                let action = PromptAction {
                    dialog: PromptDialog::ConfirmationMessage(
                        from_literal("Yes"),
                        from_literal("No"),
                        question,
                        ConfirmationMessageActionParam::ConfirmNewClient(process.exe_path.clone()),
                        ConfirmationAction::RegisterClient,
                    ),
                };
                let path = PromptWithPinentry::new(prompts, action)?;
                Ok(TksClientOption::Prompt(path))
            },
        }
    }

    /// The action of the confirmation dialog once the user accepted the client: it is
    /// recorded as known. The prompt does not count as dismissed.
    pub fn confirm_new_client(&mut self, param: &ConfirmationMessageActionParam) -> (r: Result<bool, TksError>)
        requires
            old(self).wf(),
            param is ConfirmNewClient,
        ensures
            final(self).wf(),
            r == Ok::<bool, TksError>(false),
            match param {
                ConfirmationMessageActionParam::ConfirmNewClient(exe) => final(self).known().to_set()
                    == old(self).known().to_set().insert(exe@),
                _ => true,
            },
    {
        match param {
            ConfirmationMessageActionParam::ConfirmNewClient(exe_path) => {
                match self.position(exe_path.as_str()) {
                    Some(k) => {
                        assert(self.known().to_set().insert(exe_path@) =~= self.known().to_set());
                    },
                    None => {
                        let ghost before = self.known();
                        self.known_clients.push((exe_path.clone(), TksClient {}));
                        assert(self.known() =~= before.push(exe_path@));
                        proof { before.lemma_push_to_set_commute(exe_path@); }
                        assert forall|a: int, b: int| 0 <= a < b < self.known().len() implies self.known()[a]
                            != self.known()[b] by {
                            if b == before.len() {
                                assert(before.contains(before[a]));
                            } else {
                                assert(before[a] != before[b]);
                            }
                        }
                    },
                }
                Ok(false)
            },
            ConfirmationMessageActionParam::CreateItem(_) => Ok(false),
        }
    }
}

} // verus!
