//! Prompts: the dialogs the service shows to the user on behalf of a client, their
//! registry, and the chains of prompts that run one after another.

use vstd::prelude::*;
use std::collections::BTreeMap;
use crate::error::TksError;
use crate::storage::attributes::Attributes;
use crate::text::{from_literal, parse_usize, parsed_usize, split_on, split_segments};
use crate::tks_dbus::{numbered_path, prompt_path, DBusHandle, DBusHandlePath, PathsView};

verus! {

broadcast use vstd::std_specs::btree::group_btree_axioms;

/// A request to create an item, held while the user is asked to unlock its collection:
/// the collection, the secret as the client sent it (session path, IV, encrypted value,
/// content type), whether to replace an item holding the same secret, the label, the
/// attributes and the session the secret was sent in.
#[derive(Debug, Clone)]
pub struct PendingItem {
    pub collection_uuid: u128,
    pub session_path: String,
    pub iv: Vec<u8>,
    pub value: Vec<u8>,
    pub content_type: String,
    pub replace: bool,
    pub label: String,
    pub attributes: Attributes,
    pub session_id: usize,
}

/// What a confirmation dialog is about.
#[derive(Debug, Clone)]
pub enum ConfirmationMessageActionParam {
    /// The client process with this executable path.
    ConfirmNewClient(String),
    /// An item to create once its collection is unlocked.
    CreateItem(PendingItem),
}

/// The action run once the user has entered a passphrase.
#[derive(Debug, Clone, Copy, PartialEq, Eq, Structural)]
pub enum PassphraseAction {
    /// Derive the storage key from the passphrase, then unlock every collection.
    UnlockStorage,
}

/// The action run once the user has confirmed a confirmation dialog.
#[derive(Debug, Clone, Copy, PartialEq, Eq, Structural)]
pub enum ConfirmationAction {
    /// Record the client process as known.
    RegisterClient,
    /// Unlock the collection of the pending item, then create the item.
    UnlockAndCreateItem,
}

/// A dialog to show to the user, with what to do with its answer.
#[derive(Debug, Clone)]
pub enum PromptDialog {
    /// OK button text, then the message.
    PromptMessage(String, String),
    /// Description, prompt, confirmation prompt, mismatch message, then the action.
    PassphraseInput(String, String, Option<String>, Option<String>, PassphraseAction),
    /// OK button text, Cancel button text, the question, its parameter, then the action.
    ConfirmationMessage(String, String, String, ConfirmationMessageActionParam, ConfirmationAction),
}

/// A dialog and the action attached to it.
#[derive(Debug, Clone)]
pub struct PromptAction {
    pub dialog: PromptDialog,
}

/// The answer the user gave to a dialog.
pub enum DialogResult {
    /// The passphrase entered, as bytes.
    Secret(Vec<u8>),
    /// Whether the user confirmed.
    Confirmation(bool),
    /// The dialog only showed a message.
    Unused,
}

/// What follows the user's answer to the dialog of a prompt action.
pub enum ActionOutcome {
    /// The prompt is done; `true` when it counts as dismissed.
    Done(bool),
    /// Derive the storage key from this passphrase and unlock the collections; when that
    /// succeeds the prompt counts as not dismissed.
    UnlockStorage(Vec<u8>),
    /// Record the client process with this executable path as known; the prompt then
    /// counts as not dismissed.
    RegisterClient(String),
    /// Unlock the collection of this pending item, then create the item; the prompt then
    /// counts as not dismissed.
    UnlockAndCreateItem(PendingItem),
}

/// The answer fits the dialog: a passphrase for a passphrase input, a yes or no for a
/// confirmation, nothing for a message.
pub open spec fn answers(dialog: PromptDialog, answer: DialogResult) -> bool {
    match dialog {
        PromptDialog::PromptMessage(..) => answer is Unused,
        PromptDialog::PassphraseInput(..) => answer is Secret,
        PromptDialog::ConfirmationMessage(..) => answer is Confirmation,
    }
}

impl PromptAction {
    /// Dismissing an action does nothing.
    pub fn dismiss(&self) -> (r: Result<(), TksError>)
        ensures
            r is Ok,
    {
        Ok(())
    }

    /// What follows the user's `answer` to the action's dialog. A message only has to be
    /// seen; a passphrase goes to the action; a confirmation that the user declined
    /// dismisses the prompt, one that the user accepted runs the action.
    pub fn outcome(self, answer: DialogResult) -> (r: ActionOutcome)
        requires
            answers(self.dialog, answer),
        ensures
            match (self.dialog, answer) {
                (PromptDialog::PromptMessage(..), _) => r == ActionOutcome::Done(false),
                (PromptDialog::PassphraseInput(_, _, _, _, PassphraseAction::UnlockStorage), DialogResult::Secret(s)) =>
                    r matches ActionOutcome::UnlockStorage(p) && p@ == s@,
                (
                    PromptDialog::ConfirmationMessage(
                        _,
                        _,
                        _,
                        ConfirmationMessageActionParam::ConfirmNewClient(exe),
                        ConfirmationAction::RegisterClient,
                    ),
                    DialogResult::Confirmation(yes),
                ) => if yes {
                    r matches ActionOutcome::RegisterClient(p) && p@ == exe@
                } else {
                    r == ActionOutcome::Done(true)
                },
                (
                    PromptDialog::ConfirmationMessage(
                        _,
                        _,
                        _,
                        ConfirmationMessageActionParam::CreateItem(item),
                        ConfirmationAction::UnlockAndCreateItem,
                    ),
                    DialogResult::Confirmation(yes),
                ) => if yes {
                    r == ActionOutcome::UnlockAndCreateItem(item)
                } else {
                    r == ActionOutcome::Done(true)
                },
                (PromptDialog::ConfirmationMessage(..), _) => r == ActionOutcome::Done(true),
                _ => false,
            },
    {
        match self.dialog {
            PromptDialog::PromptMessage(_, _) => ActionOutcome::Done(false),
            PromptDialog::PassphraseInput(_, _, _, _, PassphraseAction::UnlockStorage) => match answer {
                DialogResult::Secret(s) => ActionOutcome::UnlockStorage(s),
                _ => ActionOutcome::Done(true),
            },
            PromptDialog::ConfirmationMessage(
                _,
                _,
                _,
                ConfirmationMessageActionParam::ConfirmNewClient(exe),
                ConfirmationAction::RegisterClient,
            ) => match answer {
                DialogResult::Confirmation(true) => ActionOutcome::RegisterClient(exe),
                _ => ActionOutcome::Done(true),
            },
            PromptDialog::ConfirmationMessage(
                _,
                _,
                _,
                ConfirmationMessageActionParam::CreateItem(item),
                ConfirmationAction::UnlockAndCreateItem,
            ) => match answer {
                DialogResult::Confirmation(true) => ActionOutcome::UnlockAndCreateItem(item),
                _ => ActionOutcome::Done(true),
            },
            PromptDialog::ConfirmationMessage(..) => ActionOutcome::Done(true),
        }
    }
}

/// The D-Bus object of a prompt.
#[derive(Debug, Clone, Copy)]
pub struct PromptHandle {
    pub prompt_id: usize,
}

impl DBusHandle for PromptHandle {
    open spec fn handle_path(&self) -> PathsView {
        PathsView::Single(prompt_path(self.prompt_id as nat))
    }

    fn path(&self) -> (r: DBusHandlePath) {
        DBusHandlePath::SinglePath(numbered_path("/org/freedesktop/secrets/prompt/", self.prompt_id))
    }
}

/// A prompt that shows one dialog and runs its action.
#[derive(Debug, Clone)]
pub struct PromptWithPinentry {
    pub prompt_id: usize,
    pub action: PromptAction,
}

/// A prompt that runs other prompts, given by their paths, one after another.
#[derive(Debug, Clone)]
pub struct TksPromptChain {
    pub prompts: Vec<String>,
    pub prompt_id: usize,
}

/// A registered prompt.
#[derive(Debug, Clone)]
pub enum TksPrompt {
    Pinentry(PromptWithPinentry),
    Chain(TksPromptChain),
}

impl TksPrompt {
    /// The id the prompt was registered under.
    pub open spec fn id(&self) -> usize {
        match self {
            TksPrompt::Pinentry(p) => p.prompt_id,
            TksPrompt::Chain(c) => c.prompt_id,
        }
    }
}

/// The prompts registered on D-Bus that clients have yet to invoke, and the counter that
/// numbers them.
pub struct PromptRegistry {
    pub counter: usize,
    pub prompts: BTreeMap<usize, TksPrompt>,
}

impl PromptRegistry {
    /// Every prompt is filed under its own id, which the counter has already given out.
    pub open spec fn wf(&self) -> bool {
        forall|id: usize| #[trigger] self.prompts@.contains_key(id) ==> 0 < id <= self.counter && self.prompts@[id].id() == id
    }

    pub fn new() -> (r: PromptRegistry)
        ensures
            r.counter == 0,
            r.prompts@ == Map::<usize, TksPrompt>::empty(),
            r.wf(),
    {
        PromptRegistry { counter: 0, prompts: BTreeMap::new() }
    }

    /// Gives out the next prompt id.
    pub fn next_prompt_id(&mut self) -> (r: usize)
        requires
            old(self).counter < usize::MAX,
        ensures
            r == old(self).counter + 1,
            final(self).counter == r,
            final(self).prompts@ == old(self).prompts@,
            old(self).wf() ==> final(self).wf(),
    {
        self.counter = self.counter + 1;
        self.counter
    }

    /// Law: the id the counter gives out next names no registered prompt, so registering a
    /// new prompt never replaces one.
    pub proof fn lemma_next_id_is_fresh(&self)
        requires
            self.wf(),
            self.counter < usize::MAX,
        ensures
            !self.prompts@.contains_key((self.counter + 1) as usize),
    {
    }

    /// Files `prompt` under its id; returns its path.
    fn register(&mut self, prompt: TksPrompt) -> (r: String)
        ensures
            final(self).counter == old(self).counter,
            final(self).prompts@ == old(self).prompts@.insert(prompt.id(), prompt),
            r@ == prompt_path(prompt.id() as nat),
    {
        let id = match &prompt {
            TksPrompt::Pinentry(p) => p.prompt_id,
            TksPrompt::Chain(c) => c.prompt_id,
        };
        let path = numbered_path("/org/freedesktop/secrets/prompt/", id);
        let _ = self.prompts.insert(id, prompt);
        path
    }

    /// The prompt registered under `id`, if any.
    pub fn get(&self, id: usize) -> (r: Option<&TksPrompt>)
        ensures
            self.prompts@.contains_key(id) ==> r == Some(&self.prompts@[id]),
            !self.prompts@.contains_key(id) ==> r is None,
    {
        self.prompts.get(&id)
    }

    /// The end of an invocation of prompt `prompt_id`, whatever its `outcome` (`None` when
    /// it failed): the prompt is forgotten. Returns whether it counts as dismissed (a
    /// failure does), and the paths to unpublish: the prompt's own, then those of the
    /// prompts of a chain.
    pub fn completed(&mut self, prompt_id: usize, outcome: Option<(bool, Option<Vec<String>>)>) -> (r: (bool, Vec<String>))
        ensures
            final(self).counter == old(self).counter,
            final(self).prompts@ == old(self).prompts@.remove(prompt_id),
            old(self).wf() ==> final(self).wf(),
            r.0 == match outcome {
                Some((d, _)) => d,
                None => true,
            },
            r.1@.map_values(|p: String| p@) == seq![prompt_path(prompt_id as nat)] + match outcome {
                Some((_, Some(v))) => v@.map_values(|p: String| p@),
                _ => Seq::<Seq<char>>::empty(),
            },
    {
        let _ = self.prompts.remove(&prompt_id);
        let mut paths: Vec<String> = Vec::new();
        paths.push(numbered_path("/org/freedesktop/secrets/prompt/", prompt_id));
        let dismissed = match outcome {
            Some((d, chain)) => {
                match chain {
                    Some(v) => {
                        let mut v = v;
                        let ghost own = paths@;
                        let ghost others = v@;
                        paths.append(&mut v);
                        assert(paths@.map_values(|p: String| p@) =~= own.map_values(|p: String| p@) + others.map_values(
                            |p: String| p@,
                        ));
                    },
                    None => {},
                }
                d
            },
            None => true,
        };
        proof {
            assert(seq![prompt_path(prompt_id as nat)] + Seq::<Seq<char>>::empty() =~= seq![prompt_path(prompt_id as nat)]);
        }
        (dismissed, paths)
    }
}

impl PromptHandle {
    /// The prompt to invoke for this handle.
    pub fn prompt_target<'a>(&self, registry: &'a PromptRegistry) -> (r: Result<&'a TksPrompt, String>)
        ensures
            registry.prompts@.contains_key(self.prompt_id) ==> r == Ok::<&TksPrompt, String>(&registry.prompts@[self.prompt_id]),
            !registry.prompts@.contains_key(self.prompt_id) ==> (r matches Err(m) && m@
                == "could not create confirmation dialog"@),
    {
        match registry.get(self.prompt_id) {
            Some(p) => Ok(p),
            None => Err(from_literal("could not create confirmation dialog")),
        }
    }

    /// The prompt to dismiss for this handle.
    pub fn dismiss_target<'a>(&self, registry: &'a PromptRegistry) -> (r: Result<&'a TksPrompt, String>)
        ensures
            registry.prompts@.contains_key(self.prompt_id) ==> r == Ok::<&TksPrompt, String>(&registry.prompts@[self.prompt_id]),
            !registry.prompts@.contains_key(self.prompt_id) ==> (r matches Err(m) && m@
                == "could not dismiss unknown prompt"@),
    {
        match registry.get(self.prompt_id) {
            Some(p) => Ok(p),
            None => Err(from_literal("could not dismiss unknown prompt")),
        }
    }
}

impl PromptWithPinentry {
    /// Registers a prompt for `action` under the next id; returns its path.
    pub fn new(registry: &mut PromptRegistry, action: PromptAction) -> (r: Result<String, TksError>)
        requires
            old(registry).counter < usize::MAX,
        ensures
            final(registry).counter == old(registry).counter + 1,
            final(registry).prompts@.dom() == old(registry).prompts@.dom().insert(final(registry).counter),
            final(registry).prompts@[final(registry).counter as usize] matches TksPrompt::Pinentry(p) && p.prompt_id
                == final(registry).counter && p.action == action,
            forall|id: usize| id != final(registry).counter && #[trigger] old(registry).prompts@.contains_key(id)
                ==> final(registry).prompts@[id] == old(registry).prompts@[id],
            old(registry).wf() ==> final(registry).wf(),
            r matches Ok(p) && p@ == prompt_path(final(registry).counter as nat),
    {
        let prompt = PromptWithPinentry { prompt_id: registry.next_prompt_id(), action };
        Ok(registry.register(TksPrompt::Pinentry(prompt)))
    }

    pub fn get_dbus_handle(&self) -> (r: PromptHandle)
        ensures
            r.prompt_id == self.prompt_id,
    {
        PromptHandle { prompt_id: self.prompt_id }
    }
}

/// What a prompt chain does next.
pub enum ChainStep {
    /// Show prompt `id` to the user; its outcome tells whether it was dismissed.
    Prompt(usize),
    /// Dismiss prompt `id`.
    Dismiss(usize),
    /// The chain is done: whether it counts as dismissed, or why it failed.
    Finished(Result<bool, TksError>),
}

/// The elements of a prompt path, split at `/`.
pub open spec fn path_elements(p: Seq<char>) -> Seq<Seq<char>> {
    split_on(p, '/')
}

/// A path that names a registered prompt has six elements, the last of them its id.
pub open spec fn names_prompt_id(p: Seq<char>) -> bool {
    path_elements(p).len() == 6 ==> parsed_usize(path_elements(p)[5]) is Some
}

impl TksPromptChain {
    /// Registers a chain of the prompts at `prompts` under the next id; returns its path.
    pub fn new(registry: &mut PromptRegistry, prompts: Vec<String>) -> (r: String)
        requires
            old(registry).counter < usize::MAX,
        ensures
            final(registry).counter == old(registry).counter + 1,
            final(registry).prompts@.dom() == old(registry).prompts@.dom().insert(final(registry).counter),
            final(registry).prompts@[final(registry).counter as usize] matches TksPrompt::Chain(c) && c.prompt_id
                == final(registry).counter && c.prompts == prompts,
            forall|id: usize| id != final(registry).counter && #[trigger] old(registry).prompts@.contains_key(id)
                ==> final(registry).prompts@[id] == old(registry).prompts@[id],
            old(registry).wf() ==> final(registry).wf(),
            r@ == prompt_path(final(registry).counter as nat),
    {
        let prompt = TksPromptChain { prompts, prompt_id: registry.next_prompt_id() };
        registry.register(TksPrompt::Chain(prompt))
    }

    pub fn get_dbus_handle(&self) -> (r: PromptHandle)
        ensures
            r.prompt_id == self.prompt_id,
    {
        PromptHandle { prompt_id: self.prompt_id }
    }

    /// What the chain does at `position` in its list of prompts, `dismissed` telling
    /// whether it counts as dismissed so far: once dismissed, the remaining prompts are
    /// dismissed rather than shown. A path that is not `/org/freedesktop/secrets/prompt/<id>`
    /// in shape, or names no registered prompt, ends the chain with an error.
    pub fn invoke_step(&self, registry: &PromptRegistry, position: usize, dismissed: bool) -> (r: ChainStep)
        requires
            position <= self.prompts@.len(),
            position < self.prompts@.len() ==> names_prompt_id(self.prompts@[position as int]@),
        ensures
            position == self.prompts@.len() ==> r == ChainStep::Finished(Ok(dismissed)),
            position < self.prompts@.len() ==> {
                let p = self.prompts@[position as int]@;
                let e = path_elements(p);
                if e.len() != 6 {
                    r matches ChainStep::Finished(Err(TksError::NotFound(Some(m)))) && m@ == p
                } else {
                    let id = parsed_usize(e[5])->0;
                    if !registry.prompts@.contains_key(id) {
                        r matches ChainStep::Finished(Err(TksError::NotFound(Some(m)))) && m@ == "Prompt not registered: "@ + p
                    } else if dismissed {
                        r == ChainStep::Dismiss(id)
                    } else {
                        r == ChainStep::Prompt(id)
                    }
                }
            },
    {
        if position == self.prompts.len() {
            return ChainStep::Finished(Ok(dismissed));
        }
        let path = &self.prompts[position];
        let parts = split_segments(path.as_str(), '/');
        proof { assert(parts@.map_values(|x: String| x@).len() == parts@.len()); }
        if parts.len() != 6 {
            return ChainStep::Finished(Err(TksError::NotFound(Some(path.clone()))));
        }
        proof { assert(parts@.map_values(|x: String| x@)[5] == parts@[5]@); }
        let id = parse_usize(parts[5].as_str()).unwrap();
        if registry.get(id).is_none() {
            let m = from_literal("Prompt not registered: ").concat(path.as_str());
            return ChainStep::Finished(Err(TksError::NotFound(Some(m))));
        }
        if dismissed {
            ChainStep::Dismiss(id)
        } else {
            ChainStep::Prompt(id)
        }
    }

    /// Folds the `outcome` of one prompt of the chain into whether the chain counts as
    /// dismissed: any dismissed prompt dismisses the chain; a failure ends it.
    pub fn absorb(dismissed: bool, outcome: Result<bool, TksError>) -> (r: Result<bool, TksError>)
        ensures
            match outcome {
                Ok(d) => r == Ok::<bool, TksError>(dismissed || d),
                Err(e) => r == Err::<bool, TksError>(e),
            },
    {
        match outcome {
            Ok(d) => Ok(dismissed || d),
            Err(e) => Err(e),
        }
    }
}

impl DBusHandle for TksPromptChain {
    open spec fn handle_path(&self) -> PathsView {
        PathsView::Single(prompt_path(self.prompt_id as nat))
    }

    fn path(&self) -> (r: DBusHandlePath) {
        DBusHandlePath::SinglePath(numbered_path("/org/freedesktop/secrets/prompt/", self.prompt_id))
    }
}

} // verus!
