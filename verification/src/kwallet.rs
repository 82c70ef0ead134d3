//! Importing a KWallet into Secret Service collections, from the XML file that
//! KWalletManager's `export to XML` writes: the plan of items to create.

use vstd::prelude::*;
use crate::storage::attributes::Attributes;
use crate::text::{from_literal, same_text};

verus! {

/// The import command: the exported file, and the collection to fill.
#[derive(Debug)]
pub struct ImportKwalletCmd {
    /// Path to the KWalletManager's exported file.
    pub xml_file: String,
    /// Imports all the wallet's contents into the `default` collection.
    pub to_default_collection: bool,
    /// The collection to fill otherwise.
    pub collection_name: Option<String>,
    /// Replaces items that are already there (useful to resume an interrupted import).
    pub replace_existing_items: bool,
}

/// One node of a parsed XML document, in document order: the position of its parent, whether
/// it is an element, its tag name (empty but for elements), its `name` attribute, and its
/// text (an element's is that of its first child when that is a text node).
#[derive(Debug)]
pub struct XmlNode {
    pub parent: Option<usize>,
    pub is_element: bool,
    pub tag: String,
    pub name: Option<String>,
    pub text: Option<String>,
}

/// The content of an [`XmlNode`]: parent, is-element, tag, name attribute, text.
pub type XmlNodeView = (Option<usize>, bool, Seq<char>, Option<Seq<char>>, Option<Seq<char>>);

pub open spec fn opt_text(o: Option<String>) -> Option<Seq<char>> {
    match o {
        Some(s) => Some(s@),
        None => None,
    }
}

impl View for XmlNode {
    type V = XmlNodeView;

    open spec fn view(&self) -> XmlNodeView {
        (self.parent, self.is_element, self.tag@, opt_text(self.name), opt_text(self.text))
    }
}

/// The nodes of the XML document `text` in document order, the root first, or the
/// parser's error message when `text` is not well-formed XML.
pub uninterp spec fn xml_document(text: Seq<char>) -> Result<Seq<XmlNodeView>, Seq<char>>;

/// Parses `text` with `roxmltree::Document::parse` and lists its nodes (`descendants()` of
/// the document), each with its parent's position (`NodeId`), kind, tag name, `name`
/// attribute and `text()`.
#[verifier::external_body]
fn parse_xml(text: &str) -> (r: Result<Vec<XmlNode>, String>)
    ensures
        match r {
            Ok(v) => xml_document(text@) == Ok::<Seq<XmlNodeView>, Seq<char>>(v@.map_values(|n: XmlNode| n@)),
            Err(e) => xml_document(text@) == Err::<Seq<XmlNodeView>, Seq<char>>(e@),
        },
{
    match roxmltree::Document::parse(text) {
        Ok(doc) => Ok(doc.descendants().map(|n| XmlNode {
            parent: n.parent().map(|p| p.id().get_usize()),
            is_element: n.is_element(),
            tag: n.tag_name().name().to_string(),
            name: n.attribute("name").map(|s| s.to_string()),
            text: n.text().map(|s| s.to_string()),
        }).collect()),
        Err(e) => Err(e.to_string()),
    }
}

/// What the import does with one entry of the wallet.
#[derive(Debug)]
pub enum ImportStep {
    /// Creates the item `label` (second) of folder `folder` (first) holding the text (third).
    Create(String, String, String),
    /// Skips a map entry: how maps would show in the Secret Service is not settled.
    IgnoreMap(String, String),
    /// Skips a password entry that holds nothing.
    Empty(String, String),
    /// Stops the import with this error.
    Fail(String),
}

/// The content of an [`ImportStep`].
pub enum ImportStepView {
    Create(Seq<char>, Seq<char>, Seq<char>),
    IgnoreMap(Seq<char>, Seq<char>),
    Empty(Seq<char>, Seq<char>),
    Fail(Seq<char>),
}

impl View for ImportStep {
    type V = ImportStepView;

    open spec fn view(&self) -> ImportStepView {
        match self {
            ImportStep::Create(f, l, t) => ImportStepView::Create(f@, l@, t@),
            ImportStep::IgnoreMap(f, l) => ImportStepView::IgnoreMap(f@, l@),
            ImportStep::Empty(f, l) => ImportStepView::Empty(f@, l@),
            ImportStep::Fail(m) => ImportStepView::Fail(m@),
        }
    }
}

pub open spec fn steps_view(v: Seq<ImportStep>) -> Seq<ImportStepView> {
    v.map_values(|s: ImportStep| s@)
}

/// The positions of the element children of node `p`, in order.
pub open spec fn element_children(nodes: Seq<XmlNodeView>, p: int) -> Seq<int> {
    Seq::new(nodes.len(), |i: int| i).filter(|i: int| nodes[i].1 && nodes[i].0 == Some(p as usize))
}

/// What the import does with the entry at `e` of folder `folder`: every entry needs a name;
/// maps and passwords are imported, other entries are left out.
pub open spec fn entry_step(nodes: Seq<XmlNodeView>, folder: Seq<char>, e: int) -> Seq<ImportStepView> {
    match nodes[e].3 {
        None => seq![ImportStepView::Fail("Missing name"@)],
        Some(label) => if nodes[e].2 == "map"@ {
            seq![ImportStepView::IgnoreMap(folder, label)]
        } else if nodes[e].2 == "password"@ {
            match nodes[e].4 {
                Some(t) => seq![ImportStepView::Create(folder, label, t)],
                None => seq![ImportStepView::Empty(folder, label)],
            }
        } else {
            Seq::empty()
        },
    }
}

/// What the import does with the entries at `es` of folder `folder`, in order.
pub open spec fn entries_steps(nodes: Seq<XmlNodeView>, folder: Seq<char>, es: Seq<int>) -> Seq<ImportStepView>
    decreases es.len(),
{
    if es.len() == 0 {
        Seq::empty()
    } else {
        entries_steps(nodes, folder, es.drop_last()) + entry_step(nodes, folder, es.last())
    }
}

/// The folder of form data, which has no counterpart in the Secret Service.
pub open spec fn form_data_folder() -> Seq<char> {
    "FormData"@
}

/// What the import does with the folder at `f`: a folder needs a name; the form data
/// folder is left out whole.
pub open spec fn folder_steps(nodes: Seq<XmlNodeView>, f: int) -> Seq<ImportStepView> {
    match nodes[f].3 {
        None => seq![ImportStepView::Fail("Missing name in wallet attribute"@)],
        Some(name) => if name == form_data_folder() {
            Seq::empty()
        } else {
            entries_steps(nodes, name, element_children(nodes, f))
        },
    }
}

/// What the import does with the folders at `fs`, in order.
pub open spec fn folders_steps(nodes: Seq<XmlNodeView>, fs: Seq<int>) -> Seq<ImportStepView>
    decreases fs.len(),
{
    if fs.len() == 0 {
        Seq::empty()
    } else {
        folders_steps(nodes, fs.drop_last()) + folder_steps(nodes, fs.last())
    }
}

/// The steps up to the first failure, which ends them.
pub open spec fn until_failure(s: Seq<ImportStepView>) -> Seq<ImportStepView>
    decreases s.len(),
{
    if s.len() == 0 {
        Seq::empty()
    } else if s[0] is Fail {
        seq![s[0]]
    } else {
        seq![s[0]] + until_failure(s.drop_first())
    }
}

/// Law: a plan holds at most one failure, which ends it.
pub proof fn lemma_failure_ends_plan(s: Seq<ImportStepView>, i: int)
    requires
        0 <= i < until_failure(s).len(),
        until_failure(s)[i] is Fail,
    ensures
        i == until_failure(s).len() - 1,
    decreases s.len(),
{
    if s.len() > 0 && !(s[0] is Fail) {
        if i > 0 {
            assert(until_failure(s)[i] == until_failure(s.drop_first())[i - 1]);
            lemma_failure_ends_plan(s.drop_first(), i - 1);
        }
    }
}

/// The position of the first node whose tag is `wallet`, if any.
pub open spec fn wallet_position(nodes: Seq<XmlNodeView>) -> Option<int> {
    if exists|i: int| 0 <= i < nodes.len() && nodes[i].2 == "wallet"@ {
        Some(choose|i: int| 0 <= i < nodes.len() && nodes[i].2 == "wallet"@
            && forall|k: int| 0 <= k < i ==> nodes[k].2 != "wallet"@)
    } else {
        None
    }
}

/// The import plan of a document: nothing when it has no wallet; otherwise what is done
/// with each entry of each folder of the wallet, up to the first failure.
pub open spec fn import_plan(nodes: Seq<XmlNodeView>) -> Option<Seq<ImportStepView>> {
    match wallet_position(nodes) {
        None => None,
        Some(w) => Some(until_failure(folders_steps(nodes, element_children(nodes, w)))),
    }
}

/// The positions of the element children of node `p`.
fn element_children_of(nodes: &Vec<XmlNode>, p: usize) -> (r: Vec<usize>)
    ensures
        r@.map_values(|i: usize| i as int) == element_children(nodes@.map_values(|n: XmlNode| n@), p as int),
        forall|k: int| 0 <= k < r@.len() ==> r@[k] < nodes@.len(),
{
    let ghost view = nodes@.map_values(|n: XmlNode| n@);
    let ghost pred = |i: int| view[i].1 && view[i].0 == Some(p as usize);
    let mut r: Vec<usize> = Vec::new();
    let mut i: usize = 0;
    while i < nodes.len()
        invariant
            i <= nodes@.len(),
            view == nodes@.map_values(|n: XmlNode| n@),
            pred == (|i: int| view[i].1 && view[i].0 == Some(p as usize)),
            r@.map_values(|k: usize| k as int) == Seq::new(i as nat, |k: int| k).filter(pred),
            forall|k: int| 0 <= k < r@.len() ==> r@[k] < i,
        decreases nodes@.len() - i,
    {
        let ghost prev = Seq::new(i as nat, |k: int| k);
        let ghost next = Seq::new((i + 1) as nat, |k: int| k);
        assert(next.drop_last() =~= prev);
        assert(next.last() == i as int);
        reveal_with_fuel(Seq::filter, 1);
        assert(view[i as int] == nodes@[i as int]@);
        let ghost before = r@;
        if nodes[i].is_element && nodes[i].parent == Some(p) {
            r.push(i);
            assert(r@.map_values(|k: usize| k as int) =~= before.map_values(|k: usize| k as int).push(i as int));
        }
        i = i + 1;
    }
    assert(Seq::new(nodes@.len(), |k: int| k) =~= Seq::new(view.len(), |k: int| k));
    r
}

/// Copies a string.
fn copy_text(s: &String) -> (r: String)
    ensures
        r@ == s@,
{
    s.clone()
}

/// Adds to `steps` what the import does with the entry at `e` of folder `folder`.
fn push_entry_step(steps: &mut Vec<ImportStep>, nodes: &Vec<XmlNode>, folder: &String, e: usize)
    requires
        e < nodes@.len(),
    ensures
        steps_view(final(steps)@) == steps_view(old(steps)@) + entry_step(nodes@.map_values(|n: XmlNode| n@), folder@, e as int),
{
    let ghost view = nodes@.map_values(|n: XmlNode| n@);
    assert(view[e as int] == nodes@[e as int]@);
    let ghost before = steps_view(steps@);
    proof {
        reveal_strlit("map");
        reveal_strlit("password");
    }
    let node = &nodes[e];
    match &node.name {
        None => {
            steps.push(ImportStep::Fail(from_literal("Missing name")));
            assert(steps_view(steps@) =~= before + entry_step(view, folder@, e as int));
        },
        Some(label) => {
            if same_text(node.tag.as_str(), "map") {
                steps.push(ImportStep::IgnoreMap(copy_text(folder), copy_text(label)));
                assert(steps_view(steps@) =~= before + entry_step(view, folder@, e as int));
            } else if same_text(node.tag.as_str(), "password") {
                match &node.text {
                    Some(t) => steps.push(ImportStep::Create(copy_text(folder), copy_text(label), copy_text(t))),
                    None => steps.push(ImportStep::Empty(copy_text(folder), copy_text(label))),
                }
                assert(steps_view(steps@) =~= before + entry_step(view, folder@, e as int));
            } else {
                assert(steps_view(steps@) =~= before + entry_step(view, folder@, e as int));
            }
        },
    }
}

/// Adds to `steps` what the import does with the folder at `f`.
fn push_folder_steps(steps: &mut Vec<ImportStep>, nodes: &Vec<XmlNode>, f: usize)
    requires
        f < nodes@.len(),
    ensures
        steps_view(final(steps)@) == steps_view(old(steps)@) + folder_steps(nodes@.map_values(|n: XmlNode| n@), f as int),
{
    let ghost view = nodes@.map_values(|n: XmlNode| n@);
    assert(view[f as int] == nodes@[f as int]@);
    let folder = match &nodes[f].name {
        None => {
            let ghost before = steps_view(steps@);
            steps.push(ImportStep::Fail(from_literal("Missing name in wallet attribute")));
            assert(steps_view(steps@) =~= before + folder_steps(view, f as int));
            return;
        },
        Some(n) => n,
    };
    if same_text(folder.as_str(), "FormData") {
        proof {
            reveal_strlit("FormData");
            assert(steps_view(steps@) =~= steps_view(old(steps)@) + folder_steps(view, f as int));
        }
        return;
    }
    let entries = element_children_of(nodes, f);
    let ghost es = entries@.map_values(|i: usize| i as int);
    let ghost start = steps_view(steps@);
    let mut k: usize = 0;
    while k < entries.len()
        invariant
            k <= entries@.len(),
            view == nodes@.map_values(|n: XmlNode| n@),
            es == entries@.map_values(|i: usize| i as int),
            forall|m: int| 0 <= m < entries@.len() ==> entries@[m] < nodes@.len(),
            steps_view(steps@) == start + entries_steps(view, folder@, es.take(k as int)),
        decreases entries@.len() - k,
    {
        assert(es.take(k + 1).drop_last() =~= es.take(k as int));
        assert(es.take(k + 1).last() == entries@[k as int] as int);
        push_entry_step(steps, nodes, folder, entries[k]);
        k = k + 1;
        assert(steps_view(steps@) =~= start + entries_steps(view, folder@, es.take(k as int)));
    }
    assert(es.take(entries@.len() as int) =~= es);
}

/// The steps of `all` up to the first failure.
fn keep_until_failure(all: Vec<ImportStep>) -> (r: Vec<ImportStep>)
    ensures
        steps_view(r@) == until_failure(steps_view(all@)),
{
    let mut r: Vec<ImportStep> = Vec::new();
    let mut done = false;
    let ghost whole = steps_view(all@);
    let mut i: usize = 0;
    let n = all.len();
    let mut items = all;
    while items.len() > 0 && !done
        invariant
            whole.len() == n,
            i + items@.len() == n,
            steps_view(items@) == whole.subrange(i as int, n as int),
            done ==> steps_view(r@) == until_failure(whole),
            !done ==> steps_view(r@) + until_failure(steps_view(items@)) == until_failure(whole),
        decreases items@.len(),
    {
        let ghost s = steps_view(items@);
        let step = items.remove(0);
        assert(steps_view(items@) =~= s.drop_first());
        assert(s[0] == step@);
        let is_fail = match &step {
            ImportStep::Fail(_) => true,
            _ => false,
        };
        let ghost before = steps_view(r@);
        r.push(step);
        assert(steps_view(r@) =~= before.push(s[0]));
        if is_fail {
            assert(until_failure(s) =~= seq![s[0]]);
            assert(steps_view(r@) =~= before + until_failure(s));
            done = true;
        } else {
            assert(until_failure(s) =~= seq![s[0]] + until_failure(s.drop_first()));
            assert(steps_view(r@) + until_failure(steps_view(items@)) =~= before + until_failure(s));
        }
        i = i + 1;
        assert(steps_view(items@) =~= whole.subrange(i as int, n as int));
    }
    if !done {
        assert(steps_view(items@).len() == 0);
        assert(until_failure(steps_view(items@)) =~= Seq::<ImportStepView>::empty());
        assert(steps_view(r@) =~= until_failure(whole));
    }
    r
}

/// The import plan of the parsed document `nodes`: `None` when it has no wallet element;
/// otherwise what is done with each entry of each folder of the wallet, in document order,
/// up to the first failure, which ends the plan.
pub fn plan_import(nodes: &Vec<XmlNode>) -> (r: Option<Vec<ImportStep>>)
    ensures
        match import_plan(nodes@.map_values(|n: XmlNode| n@)) {
            None => r is None,
            Some(p) => r matches Some(v) && steps_view(v@) == p,
        },
{
    let ghost view = nodes@.map_values(|n: XmlNode| n@);
    proof { reveal_strlit("wallet"); }
    let mut w: usize = 0;
    let mut found = false;
    while w < nodes.len() && !found
        invariant
            w <= nodes@.len(),
            view == nodes@.map_values(|n: XmlNode| n@),
            found ==> w < nodes@.len() && view[w as int].2 == "wallet"@,
            forall|k: int| 0 <= k < w ==> view[k].2 != "wallet"@,
        decreases nodes@.len() - w + if found { 0int } else { 1int },
    {
        assert(view[w as int] == nodes@[w as int]@);
        if same_text(nodes[w].tag.as_str(), "wallet") {
            found = true;
        } else {
            w = w + 1;
        }
    }
    if !found {
        assert(wallet_position(view) is None) by {
            if exists|i: int| 0 <= i < view.len() && view[i].2 == "wallet"@ {
                let i = choose|i: int| 0 <= i < view.len() && view[i].2 == "wallet"@;
                assert(view[i].2 != "wallet"@);
            }
        }
        return None;
    }
    proof {
        let c = choose|i: int| 0 <= i < view.len() && view[i].2 == "wallet"@ && forall|k: int| 0 <= k < i ==> view[k].2
            != "wallet"@;
        assert(0 <= c < view.len() && view[c].2 == "wallet"@ && forall|k: int| 0 <= k < c ==> view[k].2 != "wallet"@);
        if c < w {
            assert(view[c].2 != "wallet"@);
        } else if c > w {
            assert(view[w as int].2 != "wallet"@);
        }
        assert(wallet_position(view) == Some(w as int));
    }
    let folders = element_children_of(nodes, w);
    let ghost fs = folders@.map_values(|i: usize| i as int);
    let mut all: Vec<ImportStep> = Vec::new();
    let mut k: usize = 0;
    while k < folders.len()
        invariant
            k <= folders@.len(),
            view == nodes@.map_values(|n: XmlNode| n@),
            fs == folders@.map_values(|i: usize| i as int),
            forall|m: int| 0 <= m < folders@.len() ==> folders@[m] < nodes@.len(),
            steps_view(all@) == folders_steps(view, fs.take(k as int)),
        decreases folders@.len() - k,
    {
        assert(fs.take(k + 1).drop_last() =~= fs.take(k as int));
        assert(fs.take(k + 1).last() == folders@[k as int] as int);
        push_folder_steps(&mut all, nodes, folders[k]);
        k = k + 1;
    }
    assert(fs.take(folders@.len() as int) =~= fs);
    Some(keep_until_failure(all))
}

/// The import plan of the exported file's content `text` (see [`plan_import`]), or the
/// parser's error message when `text` is not well-formed XML.
pub fn plan_import_of(text: &str) -> (r: Result<Option<Vec<ImportStep>>, String>)
    ensures
        match xml_document(text@) {
            Err(m) => r matches Err(e) && e@ == m,
            Ok(nodes) => r is Ok && match import_plan(nodes) {
                None => r matches Ok(None),
                Some(p) => r matches Ok(Some(v)) && steps_view(v@) == p,
            },
        },
{
    match parse_xml(text) {
        Ok(nodes) => Ok(plan_import(&nodes)),
        Err(e) => Err(e),
    }
}

/// The attributes of an item imported from folder `folder`: the folder, the entry type,
/// and the generic schema of secrets created by KWallet.
pub fn kwallet_item_attributes(folder: &str) -> (r: Attributes)
    ensures
        r@ == map![
            "tks:kwallet-folder"@ => folder@,
            "tks:kwallet-entry-type"@ => "password"@,
            "xdg:schema"@ => "org.freedesktop.Secret.Generic"@,
            "xdg:creator"@ => "org.kde.KWallet"@,
        ],
{
    let mut a = Attributes::new();
    a.insert(from_literal("tks:kwallet-folder"), from_literal(folder));
    a.insert(from_literal("tks:kwallet-entry-type"), from_literal("password"));
    a.insert(from_literal("xdg:schema"), from_literal("org.freedesktop.Secret.Generic"));
    a.insert(from_literal("xdg:creator"), from_literal("org.kde.KWallet"));
    a
}

impl ImportKwalletCmd {
    /// Among collections labelled `labels`, the one to fill when the command names it: the
    /// last one with that label.
    pub fn choose_collection(&self, labels: &Vec<String>) -> (r: Result<usize, String>)
        requires
            self.collection_name is Some,
        ensures
            ({
                let name = self.collection_name->0@;
                match r {
                    Ok(k) => k < labels@.len() && labels@[k as int]@ == name && forall|m: int| k < m < labels@.len()
                        ==> labels@[m]@ != name,
                    Err(e) => e@ == "No collection named '"@ + name + "' found"@ && forall|m: int| 0 <= m < labels@.len()
                        ==> labels@[m]@ != name,
                }
            }),
    {
        let name = self.collection_name.as_ref().unwrap();
        let mut found: Option<usize> = None;
        let mut k: usize = 0;
        while k < labels.len()
            invariant
                k <= labels@.len(),
                match found {
                    Some(j) => j < k && labels@[j as int]@ == name@ && forall|m: int| j < m < k ==> labels@[m]@ != name@,
                    None => forall|m: int| 0 <= m < k ==> labels@[m]@ != name@,
                },
            decreases labels@.len() - k,
        {
            if same_text(labels[k].as_str(), name.as_str()) {
                found = Some(k);
            }
            k = k + 1;
        }
        match found {
            Some(j) => Ok(j),
            None => Err(from_literal("No collection named '").concat(name.as_str()).concat("' found")),
        }
    }
}

} // verus!
