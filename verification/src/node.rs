//! The tree that a configuration document is read into.

use vstd::prelude::*;
use yaml_rust::ScanError;
use yaml_rust::Yaml;
use yaml_rust::YamlLoader;
use crate::error::ConfigError;
use crate::text::str_eq;

verus! {

/// A node of a configuration document, with the variants of a YAML node.
/// The entries of a `Table` stand in the order in which the document gives
/// them.
#[derive(Debug, PartialEq, Eq)]
pub enum ConfNode {
    Real(String),
    Integer(i64),
    Text(String),
    Flag(bool),
    List(Vec<ConfNode>),
    Table(Vec<(ConfNode, ConfNode)>),
    Alias(usize),
    Null,
    BadValue,
}

/// Whether an entry's key is the string `key`.
pub open spec fn is_key(entry_key: ConfNode, key: Seq<char>) -> bool {
    entry_key matches ConfNode::Text(t) && t@ == key
}

/// The value of the first entry whose key is the string `key`.
pub open spec fn lookup(entries: Seq<(ConfNode, ConfNode)>, key: Seq<char>) -> Option<ConfNode>
    decreases entries.len(),
{
    if entries.len() == 0 {
        None
    } else if is_key(entries[0].0, key) {
        Some(entries[0].1)
    } else {
        lookup(entries.drop_first(), key)
    }
}

impl ConfNode {
    /// The node under `key`, where `self` is a table that has it.
    pub open spec fn entry(self, key: Seq<char>) -> Option<ConfNode> {
        match self {
            ConfNode::Table(entries) => lookup(entries@, key),
            _ => None,
        }
    }

    /// The string under `key`; `None` where there is no such entry or it
    /// is no string.
    pub open spec fn text_at(self, key: Seq<char>) -> Option<Seq<char>> {
        match self.entry(key) {
            Some(ConfNode::Text(t)) => Some(t@),
            _ => None,
        }
    }

    /// The boolean under `key`.
    pub open spec fn flag_at(self, key: Seq<char>) -> Option<bool> {
        match self.entry(key) {
            Some(ConfNode::Flag(b)) => Some(b),
            _ => None,
        }
    }

    /// The list under `key`.
    pub open spec fn list_at(self, key: Seq<char>) -> Option<Seq<ConfNode>> {
        match self.entry(key) {
            Some(ConfNode::List(items)) => Some(items@),
            _ => None,
        }
    }

    /// Whether nothing stands under `key`: no entry, or an empty one.
    pub open spec fn lacks(self, key: Seq<char>) -> bool {
        match self.entry(key) {
            None => true,
            Some(ConfNode::Null) => true,
            Some(ConfNode::BadValue) => true,
            _ => false,
        }
    }

    /// The node under `key`, where `self` is a table that has it.
    pub fn get(&self, key: &str) -> (found: Option<&ConfNode>)
        ensures
            match found {
                Some(node) => self.entry(key@) == Some(*node),
                None => self.entry(key@) is None,
            },
    {
        match self {
            ConfNode::Table(entries) => {
                let mut i: usize = 0;
                assert(entries@.subrange(0, entries@.len() as int) =~= entries@);
                while i < entries.len()
                    invariant
                        i <= entries@.len(),
                        self.entry(key@) == lookup(entries@, key@),
                        lookup(entries@, key@) == lookup(
                            entries@.subrange(i as int, entries@.len() as int),
                            key@,
                        ),
                    decreases entries@.len() - i,
                {
                    let ghost rest = entries@.subrange(i as int, entries@.len() as int);
                    assert(rest[0] == entries@[i as int]);
                    assert(rest.drop_first() =~= entries@.subrange(i + 1, entries@.len() as int));
                    let hit = match &entries[i].0 {
                        ConfNode::Text(t) => str_eq(t.as_str(), key),
                        _ => false,
                    };
                    assert(hit == is_key(rest[0].0, key@));
                    if hit {
                        assert(lookup(rest, key@) == Some(rest[0].1));
                        return Some(&entries[i].1);
                    }
                    i += 1;
                }
                None
            },
            _ => None,
        }
    }

    /// The string under `key`.
    pub fn get_str(&self, key: &str) -> (found: Option<&str>)
        ensures
            match found {
                Some(t) => self.text_at(key@) == Some(t@),
                None => self.text_at(key@) is None,
            },
    {
        match self.get(key) {
            Some(ConfNode::Text(t)) => Some(t.as_str()),
            _ => None,
        }
    }

    /// The boolean under `key`.
    pub fn get_bool(&self, key: &str) -> (found: Option<bool>)
        ensures
            found == self.flag_at(key@),
    {
        match self.get(key) {
            Some(ConfNode::Flag(b)) => Some(*b),
            _ => None,
        }
    }

    /// The list under `key`.
    pub fn get_vec(&self, key: &str) -> (found: Option<&Vec<ConfNode>>)
        ensures
            match found {
                Some(items) => self.list_at(key@) == Some(items@),
                None => self.list_at(key@) is None,
            },
    {
        match self.get(key) {
            Some(ConfNode::List(items)) => Some(items),
            _ => None,
        }
    }

    /// Whether nothing stands under `key`.
    pub fn is_missing(&self, key: &str) -> (missing: bool)
        ensures
            missing == self.lacks(key@),
    {
        match self.get(key) {
            None => true,
            Some(ConfNode::Null) => true,
            Some(ConfNode::BadValue) => true,
            _ => false,
        }
    }
}

#[verifier::external_type_specification]
#[verifier::external_body]
pub struct ExYaml(Yaml);

#[verifier::external_type_specification]
#[verifier::external_body]
pub struct ExScanError(ScanError);

/// The documents that a YAML text holds, each as a tree; `None` where the
/// text is not YAML.
pub uninterp spec fn yaml_documents(source: Seq<char>) -> Option<Seq<ConfNode>>;

/// Copies a node of `yaml_rust` into a `ConfNode`, variant for variant: a
/// string into `Text`, a boolean into `Flag`, an array into `List` and a
/// hash into `Table`, its entries in the order of the hash. Nothing is
/// claimed of the result.
#[verifier::external_body]
fn node_from_yaml(yaml: &Yaml) -> ConfNode {
    match yaml {
        Yaml::Real(s) => ConfNode::Real(s.clone()),
        Yaml::Integer(i) => ConfNode::Integer(*i),
        Yaml::String(s) => ConfNode::Text(s.clone()),
        Yaml::Boolean(b) => ConfNode::Flag(*b),
        Yaml::Array(v) => ConfNode::List(v.iter().map(node_from_yaml).collect()),
        Yaml::Hash(h) => ConfNode::Table(
            h.iter().map(|(k, v)| (node_from_yaml(k), node_from_yaml(v))).collect(),
        ),
        Yaml::Alias(a) => ConfNode::Alias(*a),
        Yaml::Null => ConfNode::Null,
        Yaml::BadValue => ConfNode::BadValue,
    }
}

/// Calls `yaml_rust::YamlLoader::load_from_str` and copies each document
/// into a `ConfNode`. The contract claims that the outcome depends on the
/// text alone: the documents are `yaml_documents` of it, and the call fails
/// exactly where that is `None`.
#[verifier::external_body]
fn load_documents(source: &str) -> (loaded: Result<Vec<ConfNode>, ScanError>)
    ensures
        loaded matches Ok(documents) ==> yaml_documents(source@) == Some(documents@),
        loaded is Err ==> yaml_documents(source@) is None,
{
    YamlLoader::load_from_str(source).map(|docs| docs.iter().map(node_from_yaml).collect())
}

/// The first document of `documents`, or what is wrong where there is none.
pub open spec fn first_document(documents: Option<Seq<ConfNode>>) -> Result<ConfNode, ConfigError> {
    match documents {
        None => Err(ConfigError::Syntax),
        Some(docs) => if docs.len() == 0 {
            Err(ConfigError::NoDocument)
        } else {
            Ok(docs[0])
        },
    }
}

/// Picks the first of the documents that were read.
pub fn pick_document(documents: Option<Vec<ConfNode>>) -> (picked: Result<ConfNode, ConfigError>)
    ensures
        picked == first_document(
            match documents {
                Some(docs) => Some(docs@),
                None => None,
            },
        ),
{
    match documents {
        None => Err(ConfigError::Syntax),
        Some(mut docs) => {
            if docs.len() == 0 {
                Err(ConfigError::NoDocument)
            } else {
                Ok(docs.swap_remove(0))
            }
        },
    }
}

/// Reads a YAML text and gives its first document.
pub fn parse_document(source: &str) -> (parsed: Result<ConfNode, ConfigError>)
    ensures
        parsed == first_document(yaml_documents(source@)),
{
    match load_documents(source) {
        Ok(docs) => pick_document(Some(docs)),
        Err(_) => pick_document(None),
    }
}

} // verus!
