//! The text of task files: the tree of keys that a parse yields, and the search
//! for keys that no file may hold.
use serde_yaml::Value as YamlNode;
use vstd::prelude::*;

use crate::load_error::{LoadError, LoadFault};
use crate::schema::{clone_optional, optional_text};
use crate::text;
use crate::text::{chars_of, is_ascii_alphanumeric, owned};

verus! {

// ---------------------------------------------------------------------------
// Documents
// ---------------------------------------------------------------------------
/// A document as far as its keys go. Keys that are no text are not kept.
#[derive(Debug, PartialEq)]
pub enum Yaml {
    Mapping(Vec<(Option<String>, Yaml)>),
    Sequence(Vec<Yaml>),
    Tagged(Box<Yaml>),
    Scalar,
}

pub enum YamlView {
    Mapping(Seq<(Option<Seq<char>>, YamlView)>),
    Sequence(Seq<YamlView>),
    Tagged(Box<YamlView>),
    Scalar,
}

impl Yaml {
    pub open spec fn view(&self) -> YamlView
        decreases self,
    {
        match self {
            Yaml::Mapping(entries) => YamlView::Mapping(yaml_entries(entries@)),
            Yaml::Sequence(items) => YamlView::Sequence(yaml_items(items@)),
            Yaml::Tagged(inner) => YamlView::Tagged(Box::new(inner.view())),
            Yaml::Scalar => YamlView::Scalar,
        }
    }
}

pub open spec fn yaml_entries(entries: Seq<(Option<String>, Yaml)>) -> Seq<
    (Option<Seq<char>>, YamlView),
>
    decreases entries,
{
    Seq::new(
        entries.len(),
        |i: int|
            if 0 <= i < entries.len() {
                (optional_text(entries[i].0), entries[i].1.view())
            } else {
                (None, YamlView::Scalar)
            },
    )
}

pub open spec fn yaml_items(items: Seq<Yaml>) -> Seq<YamlView>
    decreases items,
{
    Seq::new(
        items.len(),
        |i: int|
            if 0 <= i < items.len() {
                items[i].view()
            } else {
                YamlView::Scalar
            },
    )
}

// ---------------------------------------------------------------------------
// Parsing
// ---------------------------------------------------------------------------
/// `serde_yaml::Value`, carried as it is: what is known of it is its tree.
#[verifier::external_type_specification]
#[verifier::external_body]
pub struct ExYamlNode(YamlNode);

/// The tree of a parsed node.
pub uninterp spec fn yaml_tree(node: YamlNode) -> YamlView;

/// The tree that a text is parsed into, or what is wrong with the text.
pub uninterp spec fn yaml_document(text: Seq<char>) -> Result<YamlView, Seq<char>>;

/// `serde_yaml::from_str` into a `serde_yaml::Value`: the node that the text
/// stands for, or the text of the crate's error. Which texts are refused, with
/// what words, and which tree the others have is left to the crate: the answer
/// is named, as one that the text alone decides.
#[verifier::external_body]
fn parse_node(text: &str) -> (res: Result<YamlNode, String>)
    ensures
        match res {
            Ok(node) => yaml_document(text@) == Ok::<YamlView, Seq<char>>(yaml_tree(node)),
            Err(message) => yaml_document(text@) == Err::<YamlView, Seq<char>>(message@),
        },
{
    serde_yaml::from_str(text).map_err(|error| error.to_string())
}

/// One level of a node: its children, and the keys that are texts.
pub enum YamlLevel<'a> {
    Mapping(Vec<(Option<String>, &'a YamlNode)>),
    Sequence(Vec<&'a YamlNode>),
    Tagged(&'a YamlNode),
    Scalar,
}

pub open spec fn node_entries(entries: Seq<(Option<String>, &YamlNode)>) -> Seq<
    (Option<Seq<char>>, YamlView),
> {
    entries.map_values(|e: (Option<String>, &YamlNode)| (optional_text(e.0), yaml_tree(*e.1)))
}

pub open spec fn node_items(items: Seq<&YamlNode>) -> Seq<YamlView> {
    items.map_values(|node: &YamlNode| yaml_tree(*node))
}

impl<'a> YamlLevel<'a> {
    pub open spec fn view(&self) -> YamlView {
        match self {
            YamlLevel::Mapping(entries) => YamlView::Mapping(node_entries(entries@)),
            YamlLevel::Sequence(items) => YamlView::Sequence(node_items(items@)),
            YamlLevel::Tagged(inner) => YamlView::Tagged(Box::new(yaml_tree(**inner))),
            YamlLevel::Scalar => YamlView::Scalar,
        }
    }
}

/// The variants of `serde_yaml::Value`: the entries of a mapping in their order,
/// each key by `serde_yaml::Value::as_str`, the items of a sequence in theirs,
/// what stands behind a tag, or none of these.
#[verifier::external_body]
fn level_of(node: &YamlNode) -> (res: YamlLevel<'_>)
    ensures
        res@ == yaml_tree(*node),
{
    match node {
        YamlNode::Mapping(mapping) => YamlLevel::Mapping(
            mapping.iter().map(|(key, value)| (key.as_str().map(str::to_owned), value)).collect(),
        ),
        YamlNode::Sequence(items) => YamlLevel::Sequence(items.iter().collect()),
        YamlNode::Tagged(tagged) => YamlLevel::Tagged(&tagged.value),
        YamlNode::Null | YamlNode::Bool(_) | YamlNode::Number(_) | YamlNode::String(_) =>
            YamlLevel::Scalar,
    }
}

fn tree_of(node: &YamlNode) -> (res: Yaml)
    ensures
        res@ == yaml_tree(*node),
    decreases yaml_tree(*node), 1int,
{
    match level_of(node) {
        YamlLevel::Mapping(entries) => {
            assert(yaml_tree(*node) == YamlView::Mapping(node_entries(entries@)));
            assert(decreases_to!(yaml_tree(*node) => yaml_tree(*node)->Mapping_0));
            Yaml::Mapping(entries_of(&entries))
        },
        YamlLevel::Sequence(items) => {
            assert(yaml_tree(*node) == YamlView::Sequence(node_items(items@)));
            assert(decreases_to!(yaml_tree(*node) => yaml_tree(*node)->Sequence_0));
            Yaml::Sequence(items_of(&items))
        },
        YamlLevel::Tagged(inner) => {
            assert(yaml_tree(*node) == YamlView::Tagged(Box::new(yaml_tree(*inner))));
            assert(decreases_to!(yaml_tree(*node) => yaml_tree(*node)->Tagged_0));
            Yaml::Tagged(Box::new(tree_of(inner)))
        },
        YamlLevel::Scalar => Yaml::Scalar,
    }
}

fn entries_of(entries: &Vec<(Option<String>, &YamlNode)>) -> (res: Vec<(Option<String>, Yaml)>)
    ensures
        yaml_entries(res@) == node_entries(entries@),
    decreases node_entries(entries@), 0int,
{
    let ghost views = node_entries(entries@);
    let mut res: Vec<(Option<String>, Yaml)> = Vec::new();
    let mut i: usize = 0;
    while i < entries.len()
        invariant
            views == node_entries(entries@),
            i <= entries@.len(),
            res@.len() == i,
            forall|k: int|
                0 <= k < i ==> optional_text((#[trigger] res@[k]).0) == views[k].0 && res@[k].1@
                    == views[k].1,
        decreases entries@.len() - i,
    {
        assert(views[i as int] == (
            optional_text(entries@[i as int].0),
            yaml_tree(*entries@[i as int].1),
        ));
        assert(decreases_to!(views => views[i as int].1));
        let key = clone_optional(&entries[i].0);
        res.push((key, tree_of(entries[i].1)));
        i = i + 1;
    }
    assert(yaml_entries(res@) =~= views);
    res
}

fn items_of(items: &Vec<&YamlNode>) -> (res: Vec<Yaml>)
    ensures
        yaml_items(res@) == node_items(items@),
    decreases node_items(items@), 0int,
{
    let ghost views = node_items(items@);
    let mut res: Vec<Yaml> = Vec::new();
    let mut i: usize = 0;
    while i < items.len()
        invariant
            views == node_items(items@),
            i <= items@.len(),
            res@.len() == i,
            forall|k: int| 0 <= k < i ==> (#[trigger] res@[k])@ == views[k],
        decreases items@.len() - i,
    {
        assert(views[i as int] == yaml_tree(*items@[i as int]));
        assert(decreases_to!(views => views[i as int]));
        res.push(tree_of(items[i]));
        i = i + 1;
    }
    assert(yaml_items(res@) =~= views);
    res
}

/// What a parse came to.
pub open spec fn parsed_view(parsed: Result<Yaml, String>) -> Result<YamlView, Seq<char>> {
    match parsed {
        Ok(doc) => Ok(doc@),
        Err(message) => Err(message@),
    }
}

/// The tree of a text.
pub fn parse_yaml(text: &str) -> (res: Result<Yaml, String>)
    ensures
        parsed_view(res) == yaml_document(text@),
{
    match parse_node(text) {
        Ok(node) => Ok(tree_of(&node)),
        Err(message) => Err(message),
    }
}

// ---------------------------------------------------------------------------
// License keys
// ---------------------------------------------------------------------------
/// The letters and digits of a text.
pub open spec fn letters(s: Seq<char>) -> Seq<char>
    decreases s.len(),
{
    if s.len() == 0 {
        s
    } else if text::ascii_alphanumeric(s.last()) {
        letters(s.drop_last()).push(s.last())
    } else {
        letters(s.drop_last())
    }
}

/// A letter in either case.
pub open spec fn same_letter(c: char, lower: char) -> bool {
    c == lower || ('A' <= c <= 'Z' && (c as u32) + 32 == lower as u32)
}

/// A key that spells `licensekey`, whatever the case and whatever stands between
/// the letters.
pub open spec fn license_key(s: Seq<char>) -> bool {
    let found = letters(s);
    &&& found.len() == "licensekey"@.len()
    &&& forall|i: int|
        0 <= i < found.len() ==> same_letter(#[trigger] found[i], "licensekey"@[i])
}

/// The first key in a document that spells `licensekey`.
pub open spec fn forbidden_field(doc: YamlView) -> Option<Seq<char>>
    decreases doc, 1int,
{
    match doc {
        YamlView::Mapping(entries) => forbidden_entry(entries, 0),
        YamlView::Sequence(items) => forbidden_item(items, 0),
        YamlView::Tagged(inner) => forbidden_field(*inner),
        YamlView::Scalar => None,
    }
}

pub open spec fn forbidden_entry(entries: Seq<(Option<Seq<char>>, YamlView)>, i: nat) -> Option<
    Seq<char>,
>
    decreases entries, entries.len() - i,
{
    if i >= entries.len() {
        None
    } else {
        let (key, value) = entries[i as int];
        if key matches Some(key) && license_key(key) {
            key
        } else {
            match forbidden_field(value) {
                Some(field) => Some(field),
                None => forbidden_entry(entries, i + 1),
            }
        }
    }
}

pub open spec fn forbidden_item(items: Seq<YamlView>, i: nat) -> Option<Seq<char>>
    decreases items, items.len() - i,
{
    if i >= items.len() {
        None
    } else {
        match forbidden_field(items[i as int]) {
            Some(field) => Some(field),
            None => forbidden_item(items, i + 1),
        }
    }
}

fn is_license_key(s: &str) -> (res: bool)
    ensures
        res == license_key(s@),
{
    let chars = chars_of(s);
    let mut found: Vec<char> = Vec::new();
    let mut i: usize = 0;
    while i < chars.len()
        invariant
            chars@ == s@,
            i <= chars@.len(),
            found@ == letters(s@.take(i as int)),
        decreases chars@.len() - i,
    {
        proof {
            assert(s@.take(i + 1).drop_last() =~= s@.take(i as int));
        }
        if is_ascii_alphanumeric(chars[i]) {
            found.push(chars[i]);
        }
        i = i + 1;
    }
    assert(s@.take(i as int) =~= s@);
    let wanted = chars_of("licensekey");
    if found.len() != wanted.len() {
        return false;
    }
    let mut k: usize = 0;
    while k < found.len()
        invariant
            k <= found@.len(),
            found@ == letters(s@),
            wanted@ == "licensekey"@,
            found@.len() == wanted@.len(),
            forall|j: int| 0 <= j < k ==> same_letter(#[trigger] found@[j], wanted@[j]),
        decreases found@.len() - k,
    {
        let c = found[k];
        let lower = wanted[k];
        if !(c == lower || ('A' <= c && c <= 'Z' && (c as u32) + 32 == lower as u32)) {
            assert(!same_letter(found@[k as int], wanted@[k as int]));
            return false;
        }
        k = k + 1;
    }
    true
}

/// Looks for a key that spells `licensekey`.
pub fn find_license_key_field(doc: &Yaml) -> (res: Option<String>)
    ensures
        match res {
            Some(field) => forbidden_field(doc@) == Some(field@),
            None => forbidden_field(doc@) is None,
        },
    decreases doc, 1int,
{
    match doc {
        Yaml::Mapping(entries) => find_in_entries(entries),
        Yaml::Sequence(items) => find_in_items(items),
        Yaml::Tagged(inner) => find_license_key_field(inner),
        Yaml::Scalar => None,
    }
}

fn find_in_entries(entries: &Vec<(Option<String>, Yaml)>) -> (res: Option<String>)
    ensures
        match res {
            Some(field) => forbidden_entry(yaml_entries(entries@), 0) == Some(field@),
            None => forbidden_entry(yaml_entries(entries@), 0) is None,
        },
    decreases entries, 0int,
{
    let ghost views = yaml_entries(entries@);
    let mut i: usize = 0;
    while i < entries.len()
        invariant
            i <= entries@.len(),
            views == yaml_entries(entries@),
            forbidden_entry(views, 0) == forbidden_entry(views, i as nat),
        decreases entries@.len() - i,
    {
        assert(decreases_to!(entries@ => entries@[i as int].1));
        assert(views[i as int] == (optional_text(entries@[i as int].0), entries@[i as int].1@));
        match &entries[i].0 {
            Some(key) => {
                if is_license_key(key) {
                    return Some(key.clone());
                }
            },
            None => {},
        }
        match find_license_key_field(&entries[i].1) {
            Some(field) => {
                return Some(field);
            },
            None => {},
        }
        i = i + 1;
    }
    None
}

fn find_in_items(items: &Vec<Yaml>) -> (res: Option<String>)
    ensures
        match res {
            Some(field) => forbidden_item(yaml_items(items@), 0) == Some(field@),
            None => forbidden_item(yaml_items(items@), 0) is None,
        },
    decreases items, 0int,
{
    let ghost views = yaml_items(items@);
    let mut i: usize = 0;
    while i < items.len()
        invariant
            i <= items@.len(),
            views == yaml_items(items@),
            forbidden_item(views, 0) == forbidden_item(views, i as nat),
        decreases items@.len() - i,
    {
        assert(decreases_to!(items@ => items@[i as int]));
        assert(views[i as int] == items@[i as int]@);
        match find_license_key_field(&items[i]) {
            Some(field) => {
                return Some(field);
            },
            None => {},
        }
        i = i + 1;
    }
    None
}

/// Why a file is refused for its document: it cannot be parsed, or holds a key
/// that it must not.
pub open spec fn document_fault(
    document: Result<YamlView, Seq<char>>,
    file: Seq<char>,
) -> Option<LoadFault> {
    match document {
        Err(message) => Some(LoadFault::Unparsable { file, message }),
        Ok(doc) => match forbidden_field(doc) {
            Some(field) => Some(LoadFault::LicenseKey { file, field }),
            None => None,
        },
    }
}

/// Refuses a file for what its parse came to.
pub fn check_document(parsed: &Result<Yaml, String>, file: &str) -> (res: Result<(), LoadError>)
    ensures
        match res {
            Ok(_) => document_fault(parsed_view(*parsed), file@) is None,
            Err(e) => document_fault(parsed_view(*parsed), file@) == Some(e@),
        },
{
    match parsed {
        Err(message) => Err(
            LoadError::Unparsable { file: owned(file), message: message.clone() },
        ),
        Ok(doc) => match find_license_key_field(doc) {
            Some(field) => Err(LoadError::LicenseKey { file: owned(file), field }),
            None => Ok(()),
        },
    }
}

/// Refuses the text of a file that cannot be parsed or holds a license key.
pub fn reject_license_key_fields(text: &str, file: &str) -> (res: Result<(), LoadError>)
    ensures
        match res {
            Ok(_) => document_fault(yaml_document(text@), file@) is None,
            Err(e) => document_fault(yaml_document(text@), file@) == Some(e@),
        },
{
    check_document(&parse_yaml(text), file)
}

// ---------------------------------------------------------------------------
// Laws
// ---------------------------------------------------------------------------
/// Whether some mapping of a document, however deep, has a key that spells `licensekey`.
pub open spec fn holds_license_key(doc: YamlView) -> bool
    decreases doc,
{
    match doc {
        YamlView::Mapping(entries) => exists|i: int|
            0 <= i < entries.len() && ((entries[i].0 matches Some(key) && license_key(key))
                || holds_license_key((#[trigger] entries[i]).1)),
        YamlView::Sequence(items) => exists|i: int|
            0 <= i < items.len() && holds_license_key(#[trigger] items[i]),
        YamlView::Tagged(inner) => holds_license_key(*inner),
        YamlView::Scalar => false,
    }
}

/// A document is refused for a license key if and only if one of its mappings, however deep,
/// has such a key.
pub proof fn law_license_keys_are_found(doc: YamlView)
    ensures
        forbidden_field(doc) is Some <==> holds_license_key(doc),
    decreases doc, 0int,
{
    match doc {
        YamlView::Mapping(entries) => lemma_entries_found(entries, 0),
        YamlView::Sequence(items) => lemma_items_found(items, 0),
        YamlView::Tagged(inner) => law_license_keys_are_found(*inner),
        YamlView::Scalar => {},
    }
}

proof fn lemma_entries_found(entries: Seq<(Option<Seq<char>>, YamlView)>, i: nat)
    ensures
        forbidden_entry(entries, i) is Some <==> exists|k: int|
            i <= k < entries.len() && ((entries[k].0 matches Some(key) && license_key(key))
                || holds_license_key((#[trigger] entries[k]).1)),
    decreases entries, entries.len() - i,
{
    if i < entries.len() {
        assert(decreases_to!(entries => entries[i as int]));
        law_license_keys_are_found(entries[i as int].1);
        lemma_entries_found(entries, i + 1);
        let own = (entries[i as int].0 matches Some(key) && license_key(key)) || holds_license_key(
            entries[i as int].1,
        );
        if own {
            assert(i <= i < entries.len());
        }
    }
}

proof fn lemma_items_found(items: Seq<YamlView>, i: nat)
    ensures
        forbidden_item(items, i) is Some <==> exists|k: int|
            i <= k < items.len() && holds_license_key(#[trigger] items[k]),
    decreases items, items.len() - i,
{
    if i < items.len() {
        law_license_keys_are_found(items[i as int]);
        lemma_items_found(items, i + 1);
    }
}

/// What is looked at in a key are its letters and digits, in their order.
pub proof fn law_letters(s: Seq<char>)
    ensures
        letters(s) == s.filter(|c: char| text::ascii_alphanumeric(c)),
    decreases s.len(),
{
    reveal(Seq::filter);
    if s.len() > 0 {
        law_letters(s.drop_last());
    }
}

} // verus!
