//! The values of a prompt: how a configuration declares them and how each
//! is rendered from the state of the repository.

use vstd::prelude::*;
use vstd::string::StringExecFns;
use crate::backend::Backend;
use crate::backend::Cache;
use crate::backend::BranchAheadBehind;
use crate::backend::Divergence;
use crate::backend::FileBucket;
use crate::backend::FileCounts;
use crate::backend::OperationState;
use crate::backend::RemoteBranch;
use crate::backend::RemoteBranchText;
use crate::backend::log_grown;
use crate::backend::message_about;
use crate::backend::stats_text;
use crate::backend::text_of;
use crate::constants::CHANGED_KEY;
use crate::constants::CONFLICTS_KEY;
use crate::constants::NEW_KEY;
use crate::constants::STAGED_KEY;
use crate::error::ConfigError;
use crate::error::ConfigFault;
use crate::error::Field;
use crate::error::result_view;
use crate::node::ConfNode;
use crate::text::decimal;
use crate::text::number_text;
use crate::text::replace_all;
use crate::text::replaced;
use crate::text::split_at_first;
use crate::text::split_once;
use crate::text::str_eq;

verus! {

/// What a value shows: an optional piece of text. `None` means that the
/// value is left out, which is no error.
pub trait Display {
    /// The piece of text that `display` gives.
    spec fn rendered(&self) -> Option<Seq<char>>;

    /// Renders the value.
    fn display(&self) -> (segment: Option<String>)
        ensures
            text_of(segment) == self.rendered(),
    ;
}

/// The strings of a list of pairs of strings.
pub open spec fn pairs_text(pairs: Seq<(String, String)>) -> Seq<(Seq<char>, Seq<char>)> {
    pairs.map_values(|pair: (String, String)| (pair.0@, pair.1@))
}

/// `s` after each pair of `values`, in their order, had every occurrence of
/// its first string replaced by its second.
pub open spec fn substituted(s: Seq<char>, values: Seq<(Seq<char>, Seq<char>)>) -> Seq<char>
    decreases values.len(),
{
    if values.len() == 0 {
        s
    } else {
        replaced(substituted(s, values.drop_last()), values.last().0, values.last().1)
    }
}

/// Replaces the special values in `s`: for each pair of `values`, in
/// their order, every occurrence of its first string by its second.
pub fn substiute_special_values(s: String, values: &Vec<(String, String)>) -> (out: String)
    ensures
        out@ == substituted(s@, pairs_text(values@)),
{
    let mut r: String = s;
    let mut i: usize = 0;
    while i < values.len()
        invariant
            i <= values@.len(),
            r@ == substituted(s@, pairs_text(values@).subrange(0, i as int)),
        decreases values@.len() - i,
    {
        proof {
            let done = pairs_text(values@).subrange(0, i as int);
            let next = pairs_text(values@).subrange(0, i + 1);
            assert(next.drop_last() =~= done);
            assert(next.last() == (values@[i as int].0@, values@[i as int].1@));
        }
        r = replace_all(r.as_str(), values[i].0.as_str(), values[i].1.as_str());
        i += 1;
    }
    assert(pairs_text(values@).subrange(0, i as int) =~= pairs_text(values@));
    r
}

/// The text of a value: `data` between its two format strings.
pub open spec fn formatted(
    pre_format: Seq<char>,
    post_format: Seq<char>,
    data: Seq<char>,
) -> Seq<char> {
    pre_format + data + post_format
}

/// Wraps `data` in `pre_format` and `post_format`.
pub fn format_value(pre_format: &str, post_format: &str, data: &str) -> (out: String)
    ensures
        out@ == formatted(pre_format@, post_format@, data@),
{
    let mut out = String::from_str(pre_format);
    out.append(data);
    out.append(post_format);
    out
}

/// What every value declaration holds: its type and the two strings that
/// are put round what it shows.
#[derive(Debug)]
pub struct SimpleValue {
    pub value_type: String,
    pub pre_format: String,
    pub post_format: String,
}

/// A `SimpleValue` with its texts as sequences of characters.
pub struct ValueText {
    pub value_type: Seq<char>,
    pub pre_format: Seq<char>,
    pub post_format: Seq<char>,
}

impl View for SimpleValue {
    type V = ValueText;

    open spec fn view(&self) -> ValueText {
        ValueText {
            value_type: self.value_type@,
            pre_format: self.pre_format@,
            post_format: self.post_format@,
        }
    }
}

impl Clone for SimpleValue {
    fn clone(&self) -> (copy: Self)
        ensures
            copy == *self,
    {
        SimpleValue {
            value_type: self.value_type.clone(),
            pre_format: self.pre_format.clone(),
            post_format: self.post_format.clone(),
        }
    }
}

/// What a declaration holds of the three keys that each one must have, or
/// the first of them that is missing. A key whose value is no string counts
/// as missing. An empty string is a value like any other.
pub open spec fn simple_value_of(node: ConfNode) -> Result<ValueText, ConfigFault> {
    match node.text_at(Field::Type.key()) {
        None => Err(ConfigFault::MissingField { field: Field::Type, declaration: Seq::empty() }),
        Some(value_type) => match node.text_at(Field::PreFormat.key()) {
            None => Err(
                ConfigFault::MissingField { field: Field::PreFormat, declaration: value_type },
            ),
            Some(pre_format) => match node.text_at(Field::PostFormat.key()) {
                None => Err(
                    ConfigFault::MissingField { field: Field::PostFormat, declaration: value_type },
                ),
                Some(post_format) => Ok(
                    ValueText {
                        value_type: value_type,
                        pre_format: pre_format,
                        post_format: post_format,
                    },
                ),
            },
        },
    }
}

impl SimpleValue {
    /// Reads the type and the format strings of a value declaration.
    pub fn new(value_yaml: &ConfNode) -> (value: Result<SimpleValue, ConfigError>)
        ensures
            result_view(value) == simple_value_of(*value_yaml),
    {
        let value_type = match value_yaml.get_str(Field::Type.name()) {
            Some(s) => String::from_str(s),
            None => {
                let missing = ConfigError::MissingField {
                    field: Field::Type,
                    declaration: String::new(),
                };
                assert(missing@.arrow_MissingField_declaration() =~= Seq::empty());
                return Err(missing);
            },
        };
        let pre_format = match value_yaml.get_str(Field::PreFormat.name()) {
            Some(s) => String::from_str(s),
            None => {
                return Err(
                    ConfigError::MissingField { field: Field::PreFormat, declaration: value_type },
                );
            },
        };
        let post_format = match value_yaml.get_str(Field::PostFormat.name()) {
            Some(s) => String::from_str(s),
            None => {
                return Err(
                    ConfigError::MissingField { field: Field::PostFormat, declaration: value_type },
                );
            },
        };
        Ok(SimpleValue { value_type: value_type, pre_format: pre_format, post_format: post_format })
    }
}

/// What a value of the prompt shows.
#[derive(Clone, Copy, Debug, PartialEq, Eq, Structural)]
pub enum ValueKind {
    /// What the repository is in the middle of.
    RepositoryState,
    /// The number of untracked files.
    New,
    /// The number of files changed in the working tree.
    Changed,
    /// The number of files changed in the index.
    Staged,
    /// The number of files in conflict.
    Conflicts,
    /// The number of stashed states.
    Stash,
    /// How far the current branch and a branch of a remote have diverged.
    RemoteDifference,
    /// A piece of text between two values.
    Separator,
}

impl ValueKind {
    /// The kind that a type of a declaration names.
    pub open spec fn named(value_type: Seq<char>) -> Option<ValueKind> {
        if value_type == "repository_state"@ {
            Some(ValueKind::RepositoryState)
        } else if value_type == NEW_KEY@ {
            Some(ValueKind::New)
        } else if value_type == CHANGED_KEY@ {
            Some(ValueKind::Changed)
        } else if value_type == STAGED_KEY@ {
            Some(ValueKind::Staged)
        } else if value_type == CONFLICTS_KEY@ {
            Some(ValueKind::Conflicts)
        } else if value_type == "stash"@ {
            Some(ValueKind::Stash)
        } else if value_type == "remote_difference"@ {
            Some(ValueKind::RemoteDifference)
        } else if value_type == "separator"@ {
            Some(ValueKind::Separator)
        } else {
            None
        }
    }

    /// The kind that a type of a declaration names.
    pub fn from_name(value_type: &str) -> (kind: Option<ValueKind>)
        ensures
            kind == ValueKind::named(value_type@),
    {
        if str_eq(value_type, "repository_state") {
            Some(ValueKind::RepositoryState)
        } else if str_eq(value_type, NEW_KEY) {
            Some(ValueKind::New)
        } else if str_eq(value_type, CHANGED_KEY) {
            Some(ValueKind::Changed)
        } else if str_eq(value_type, STAGED_KEY) {
            Some(ValueKind::Staged)
        } else if str_eq(value_type, CONFLICTS_KEY) {
            Some(ValueKind::Conflicts)
        } else if str_eq(value_type, "stash") {
            Some(ValueKind::Stash)
        } else if str_eq(value_type, "remote_difference") {
            Some(ValueKind::RemoteDifference)
        } else if str_eq(value_type, "separator") {
            Some(ValueKind::Separator)
        } else {
            None
        }
    }

    /// The counter of changed paths that the kind shows, where it shows one.
    pub open spec fn bucket_of(self) -> Option<FileBucket> {
        match self {
            ValueKind::New => Some(FileBucket::New),
            ValueKind::Changed => Some(FileBucket::Changed),
            ValueKind::Staged => Some(FileBucket::Staged),
            ValueKind::Conflicts => Some(FileBucket::Conflicts),
            _ => None,
        }
    }

    /// The counter of changed paths that the kind shows, where it shows one.
    pub fn bucket(self) -> (bucket: Option<FileBucket>)
        ensures
            bucket == self.bucket_of(),
    {
        match self {
            ValueKind::New => Some(FileBucket::New),
            ValueKind::Changed => Some(FileBucket::Changed),
            ValueKind::Staged => Some(FileBucket::Staged),
            ValueKind::Conflicts => Some(FileBucket::Conflicts),
            _ => None,
        }
    }
}

/// What a value inside a `remote_difference` shows.
#[derive(Clone, Copy, Debug, PartialEq, Eq, Structural)]
pub enum RemoteValueKind {
    /// The names of the branches and of the remote.
    Name,
    /// The number of commits that the remote branch lacks.
    Ahead,
    /// The number of commits that the current branch lacks.
    Behind,
}

impl RemoteValueKind {
    /// The kind that a type of a declaration names.
    pub open spec fn named(value_type: Seq<char>) -> Option<RemoteValueKind> {
        if value_type == "name"@ {
            Some(RemoteValueKind::Name)
        } else if value_type == "ahead"@ {
            Some(RemoteValueKind::Ahead)
        } else if value_type == "behind"@ {
            Some(RemoteValueKind::Behind)
        } else {
            None
        }
    }

    /// The kind that a type of a declaration names.
    pub fn from_name(value_type: &str) -> (kind: Option<RemoteValueKind>)
        ensures
            kind == RemoteValueKind::named(value_type@),
    {
        if str_eq(value_type, "name") {
            Some(RemoteValueKind::Name)
        } else if str_eq(value_type, "ahead") {
            Some(RemoteValueKind::Ahead)
        } else if str_eq(value_type, "behind") {
            Some(RemoteValueKind::Behind)
        } else {
            None
        }
    }
}

/// A value inside a `remote_difference`.
#[derive(Debug)]
pub struct RemoteValue {
    pub kind: RemoteValueKind,
    pub value: SimpleValue,
}

/// A `RemoteValue` with its texts as sequences of characters.
pub struct RemoteValueText {
    pub kind: RemoteValueKind,
    pub value: ValueText,
}

impl View for RemoteValue {
    type V = RemoteValueText;

    open spec fn view(&self) -> RemoteValueText {
        RemoteValueText { kind: self.kind, value: self.value@ }
    }
}

/// The views of a list of values.
pub open spec fn remote_values_text(values: Seq<RemoteValue>) -> Seq<RemoteValueText> {
    values.map_values(|value: RemoteValue| value@)
}

/// What a declaration inside a `remote_difference` holds, or what is wrong
/// with it.
pub open spec fn remote_value_of(node: ConfNode) -> Result<RemoteValueText, ConfigFault> {
    match simple_value_of(node) {
        Err(fault) => Err(fault),
        Ok(value) => match RemoteValueKind::named(value.value_type) {
            None => Err(ConfigFault::UnknownRemoteValue { found: value.value_type }),
            Some(kind) => Ok(RemoteValueText { kind: kind, value: value }),
        },
    }
}

/// What a list of declarations inside a `remote_difference` holds, or what
/// is wrong with the first of them that is not in order.
pub open spec fn remote_values_of(
    nodes: Seq<ConfNode>,
) -> Result<Seq<RemoteValueText>, ConfigFault>
    decreases nodes.len(),
{
    if nodes.len() == 0 {
        Ok(Seq::empty())
    } else {
        match remote_values_of(nodes.drop_last()) {
            Err(fault) => Err(fault),
            Ok(values) => match remote_value_of(nodes.last()) {
                Err(fault) => Err(fault),
                Ok(value) => Ok(values.push(value)),
            },
        }
    }
}

/// The remote branch that a `remote_difference` names, if it names one.
/// The name must be made of exactly two parts with one `/` between them:
/// the remote and the branch.
pub open spec fn remote_branch_of(node: ConfNode) -> Result<Option<RemoteBranchText>, ConfigFault> {
    match node.text_at("remote_branch"@) {
        None => Ok(None),
        Some(name) => match split_once(name, '/') {
            None => Err(ConfigFault::InvalidRemoteBranch { found: name }),
            Some((remote, branch)) => if split_once(branch, '/') is Some {
                Err(ConfigFault::InvalidRemoteBranch { found: name })
            } else {
                Ok(
                    Some(
                        RemoteBranchText {
                            remote_branch: name,
                            remote_branch_name: branch,
                            remote_name: remote,
                        },
                    ),
                )
            },
        },
    }
}

/// The view of an optional remote branch.
pub open spec fn remote_branch_text(branch: Option<RemoteBranch>) -> Option<RemoteBranchText> {
    match branch {
        Some(b) => Some(b@),
        None => None,
    }
}

/// One entry of the list of values that a configuration declares.
#[derive(Debug)]
pub struct ValueDescriptor {
    pub kind: ValueKind,
    /// The type as it was written, and the format strings.
    pub value: SimpleValue,
    /// The values inside a `remote_difference`, in their order; empty for
    /// every other kind.
    pub children: Vec<RemoteValue>,
    /// The remote branch that a `remote_difference` names. Where it names
    /// none, the branch that the current branch follows is taken.
    pub remote_branch: Option<RemoteBranch>,
    /// Whether a `remote_difference` is shown when the two branches do not
    /// differ.
    pub display_if_uptodate: bool,
}

/// A `ValueDescriptor` with its texts as sequences of characters.
pub struct DescriptorText {
    pub kind: ValueKind,
    pub value: ValueText,
    pub children: Seq<RemoteValueText>,
    pub remote_branch: Option<RemoteBranchText>,
    pub display_if_uptodate: bool,
}

impl View for ValueDescriptor {
    type V = DescriptorText;

    open spec fn view(&self) -> DescriptorText {
        DescriptorText {
            kind: self.kind,
            value: self.value@,
            children: remote_values_text(self.children@),
            remote_branch: remote_branch_text(self.remote_branch),
            display_if_uptodate: self.display_if_uptodate,
        }
    }
}

/// What a value declaration holds, or the first thing that is wrong with
/// it. Every declaration needs `type`, `pre_format` and `post_format`. A
/// `remote_difference` needs `display_if_uptodate` and `values` too, and
/// may name a `remote_branch`.
pub open spec fn descriptor_of(node: ConfNode) -> Result<DescriptorText, ConfigFault> {
    match simple_value_of(node) {
        Err(fault) => Err(fault),
        Ok(value) => match ValueKind::named(value.value_type) {
            None => Err(ConfigFault::UnknownType { found: value.value_type }),
            Some(ValueKind::RemoteDifference) => match remote_branch_of(node) {
                Err(fault) => Err(fault),
                Ok(remote_branch) => match node.flag_at(Field::DisplayIfUptodate.key()) {
                    None => Err(
                        ConfigFault::MissingField {
                            field: Field::DisplayIfUptodate,
                            declaration: value.value_type,
                        },
                    ),
                    Some(display_if_uptodate) => match node.list_at(Field::Values.key()) {
                        None => Err(
                            ConfigFault::MissingField {
                                field: Field::Values,
                                declaration: value.value_type,
                            },
                        ),
                        Some(nodes) => match remote_values_of(nodes) {
                            Err(fault) => Err(fault),
                            Ok(children) => Ok(
                                DescriptorText {
                                    kind: ValueKind::RemoteDifference,
                                    value: value,
                                    children: children,
                                    remote_branch: remote_branch,
                                    display_if_uptodate: display_if_uptodate,
                                },
                            ),
                        },
                    },
                },
            },
            Some(kind) => Ok(
                DescriptorText {
                    kind: kind,
                    value: value,
                    children: Seq::empty(),
                    remote_branch: None,
                    display_if_uptodate: false,
                },
            ),
        },
    }
}

/// Reads one declaration inside a `remote_difference`.
pub fn parse_remote_value(node: &ConfNode) -> (value: Result<RemoteValue, ConfigError>)
    ensures
        result_view(value) == remote_value_of(*node),
{
    let value = match SimpleValue::new(node) {
        Ok(v) => v,
        Err(e) => {
            return Err(e);
        },
    };
    match RemoteValueKind::from_name(value.value_type.as_str()) {
        Some(kind) => Ok(RemoteValue { kind: kind, value: value }),
        None => Err(ConfigError::UnknownRemoteValue { found: value.value_type }),
    }
}

/// Reads the declarations inside a `remote_difference`.
pub fn parse_remote_values(nodes: &Vec<ConfNode>) -> (values: Result<Vec<RemoteValue>, ConfigError>)
    ensures
        match values {
            Ok(list) => remote_values_of(nodes@) == Ok::<Seq<RemoteValueText>, ConfigFault>(
                remote_values_text(list@),
            ),
            Err(error) => remote_values_of(nodes@) == Err::<Seq<RemoteValueText>, ConfigFault>(
                error@,
            ),
        },
{
    let mut values: Vec<RemoteValue> = Vec::new();
    let mut i: usize = 0;
    assert(remote_values_text(values@) =~= Seq::empty());
    while i < nodes.len()
        invariant
            i <= nodes@.len(),
            remote_values_of(nodes@.subrange(0, i as int)) == Ok::<
                Seq<RemoteValueText>,
                ConfigFault,
            >(remote_values_text(values@)),
        decreases nodes@.len() - i,
    {
        proof {
            assert(nodes@.subrange(0, i + 1).drop_last() =~= nodes@.subrange(0, i as int));
            assert(nodes@.subrange(0, i + 1).last() == nodes@[i as int]);
        }
        match parse_remote_value(&nodes[i]) {
            Ok(value) => {
                let ghost before = remote_values_text(values@);
                values.push(value);
                assert(remote_values_text(values@) =~= before.push(value@));
            },
            Err(error) => {
                proof {
                    lemma_remote_values_fault(nodes@, i + 1);
                }
                return Err(error);
            },
        }
        i += 1;
    }
    assert(nodes@.subrange(0, i as int) =~= nodes@);
    Ok(values)
}

/// A fault in the first `n` declarations is the fault of the whole list.
pub proof fn lemma_remote_values_fault(nodes: Seq<ConfNode>, n: int)
    requires
        0 <= n <= nodes.len(),
        remote_values_of(nodes.subrange(0, n)) is Err,
    ensures
        remote_values_of(nodes) == remote_values_of(nodes.subrange(0, n)),
    decreases nodes.len() - n,
{
    if n < nodes.len() {
        assert(nodes.subrange(0, n + 1).drop_last() =~= nodes.subrange(0, n));
        lemma_remote_values_fault(nodes, n + 1);
    } else {
        assert(nodes.subrange(0, n) =~= nodes);
    }
}

/// Reads the remote branch that a `remote_difference` names.
pub fn parse_remote_branch(node: &ConfNode) -> (branch: Result<Option<RemoteBranch>, ConfigError>)
    ensures
        match branch {
            Ok(b) => remote_branch_of(*node) == Ok::<Option<RemoteBranchText>, ConfigFault>(
                remote_branch_text(b),
            ),
            Err(error) => remote_branch_of(*node) == Err::<Option<RemoteBranchText>, ConfigFault>(
                error@,
            ),
        },
{
    match node.get_str("remote_branch") {
        None => Ok(None),
        Some(name) => match split_at_first(name, '/') {
            None => Err(ConfigError::InvalidRemoteBranch { found: String::from_str(name) }),
            Some((remote, branch)) => {
                if split_at_first(branch.as_str(), '/').is_some() {
                    Err(ConfigError::InvalidRemoteBranch { found: String::from_str(name) })
                } else {
                    Ok(
                        Some(
                            RemoteBranch {
                                remote_branch: String::from_str(name),
                                remote_branch_name: branch,
                                remote_name: remote,
                            },
                        ),
                    )
                }
            },
        },
    }
}

impl ValueDescriptor {
    /// Reads one value declaration.
    pub fn new(node: &ConfNode) -> (descriptor: Result<ValueDescriptor, ConfigError>)
        ensures
            result_view(descriptor) == descriptor_of(*node),
    {
        let value = match SimpleValue::new(node) {
            Ok(v) => v,
            Err(e) => {
                return Err(e);
            },
        };
        let kind = match ValueKind::from_name(value.value_type.as_str()) {
            Some(k) => k,
            None => {
                return Err(ConfigError::UnknownType { found: value.value_type });
            },
        };
        match kind {
            ValueKind::RemoteDifference => {
                let remote_branch = match parse_remote_branch(node) {
                    Ok(b) => b,
                    Err(e) => {
                        return Err(e);
                    },
                };
                let display_if_uptodate = match node.get_bool(Field::DisplayIfUptodate.name()) {
                    Some(b) => b,
                    None => {
                        return Err(
                            ConfigError::MissingField {
                                field: Field::DisplayIfUptodate,
                                declaration: value.value_type,
                            },
                        );
                    },
                };
                let children = match node.get_vec(Field::Values.name()) {
                    Some(nodes) => match parse_remote_values(nodes) {
                        Ok(list) => list,
                        Err(e) => {
                            return Err(e);
                        },
                    },
                    None => {
                        return Err(
                            ConfigError::MissingField {
                                field: Field::Values,
                                declaration: value.value_type,
                            },
                        );
                    },
                };
                Ok(
                    ValueDescriptor {
                        kind: kind,
                        value: value,
                        children: children,
                        remote_branch: remote_branch,
                        display_if_uptodate: display_if_uptodate,
                    },
                )
            },
            _ => {
                let descriptor = ValueDescriptor {
                    kind: kind,
                    value: value,
                    children: Vec::new(),
                    remote_branch: None,
                    display_if_uptodate: false,
                };
                assert(descriptor@.children =~= Seq::empty());
                Ok(descriptor)
            },
        }
    }
}

/// What a `repository_state` shows: nothing for a clean repository, else
/// the word for the state between the format strings.
pub open spec fn state_segment(value: ValueText, state: OperationState) -> Option<Seq<char>> {
    if state == OperationState::Clean {
        None
    } else {
        Some(formatted(value.pre_format, value.post_format, state.label_text()))
    }
}

/// What a counter shows: nothing for zero, else the number, in base ten,
/// between the format strings.
pub open spec fn count_segment(value: ValueText, count: nat) -> Option<Seq<char>> {
    if count == 0 {
        None
    } else {
        Some(formatted(value.pre_format, value.post_format, decimal(count)))
    }
}

/// What a separator shows when it is shown: its format strings.
pub open spec fn separator_text(value: ValueText) -> Seq<char> {
    formatted(value.pre_format, value.post_format, Seq::empty())
}

/// Renders a `repository_state`.
pub fn render_state(value: &SimpleValue, state: OperationState) -> (segment: Option<String>)
    ensures
        text_of(segment) == state_segment(value@, state),
        state == OperationState::Clean ==> segment is None,
{
    match state {
        OperationState::Clean => None,
        _ => Some(
            format_value(value.pre_format.as_str(), value.post_format.as_str(), state.label()),
        ),
    }
}

/// Renders a counter.
pub fn render_count(value: &SimpleValue, count: usize) -> (segment: Option<String>)
    ensures
        text_of(segment) == count_segment(value@, count as nat),
        count == 0 ==> segment is None,
        count > 0 ==> text_of(segment) == Some(
            value.pre_format@ + decimal(count as nat) + value.post_format@,
        ),
{
    if count > 0 {
        let number = number_text(count);
        Some(format_value(value.pre_format.as_str(), value.post_format.as_str(), number.as_str()))
    } else {
        None
    }
}

/// Shows what the repository is in the middle of.
#[derive(Debug)]
pub struct RepoStatus {
    pub debug: bool,
    pub value: SimpleValue,
    pub state: OperationState,
}

impl Display for RepoStatus {
    open spec fn rendered(&self) -> Option<Seq<char>> {
        state_segment(self.value@, self.state)
    }

    fn display(&self) -> (segment: Option<String>)
        ensures
            self.state == OperationState::Clean ==> segment is None,
    {
        render_state(&self.value, self.state)
    }
}

impl RepoStatus {
    /// The value for a repository in the given state.
    pub fn of_state(
        simple_value: &SimpleValue,
        state: OperationState,
        debug: bool,
    ) -> (status: RepoStatus)
        ensures
            status.value == *simple_value,
            status.state == state,
            status.debug == debug,
    {
        RepoStatus { value: simple_value.clone(), state: state, debug: debug }
    }

    /// The value for the repository of `backend`, whose state is read.
    pub fn new(
        simple_value: &SimpleValue,
        backend: &mut Backend,
        debug: bool,
    ) -> (status: RepoStatus)
        ensures
            status.value == *simple_value,
            status.debug == debug,
            final(backend).cache.repository_operation == Some(status.state),
            old(backend).cache.repository_operation is Some ==> final(backend).cache
                == old(backend).cache,
            final(backend).cache.current_branch_name == old(backend).cache.current_branch_name,
            final(backend).cache.file_statuses == old(backend).cache.file_statuses,
            final(backend).cache.stash_count == old(backend).cache.stash_count,
            final(backend).debug == old(backend).debug,
            log_grown(old(backend).debug, old(backend).log@, final(backend).log@),
    {
        let state = backend.get_repository_operation();
        RepoStatus::of_state(simple_value, state, debug)
    }
}

/// Shows one of the counters of changed paths.
#[derive(Debug)]
pub struct FileStatus {
    pub debug: bool,
    pub value: SimpleValue,
    pub bucket: FileBucket,
    /// The counters as they were read; `None` where none were read.
    pub counts: Option<FileCounts>,
}

/// The counter that a type of a declaration names.
pub open spec fn bucket_named(file_type: Seq<char>) -> Option<FileBucket> {
    match ValueKind::named(file_type) {
        Some(kind) => kind.bucket_of(),
        None => None,
    }
}

/// The counter that a type of a declaration names.
pub fn file_bucket(file_type: &str) -> (bucket: Option<FileBucket>)
    ensures
        bucket == bucket_named(file_type@),
{
    match ValueKind::from_name(file_type) {
        Some(kind) => kind.bucket(),
        None => None,
    }
}

impl Display for FileStatus {
    open spec fn rendered(&self) -> Option<Seq<char>> {
        match self.counts {
            Some(counts) => count_segment(self.value@, counts.of(self.bucket) as nat),
            None => None,
        }
    }

    fn display(&self) -> (segment: Option<String>)
        ensures
            (self.counts is Some && self.counts->0.of(self.bucket) == 0) ==> segment is None,
            (self.counts is Some && self.counts->0.of(self.bucket) > 0) ==> text_of(segment)
                == Some(
                self.value.pre_format@ + decimal(self.counts->0.of(self.bucket) as nat)
                    + self.value.post_format@,
            ),
    {
        match self.counts {
            Some(counts) => render_count(&self.value, counts.get(self.bucket)),
            None => None,
        }
    }
}

impl FileStatus {
    /// The number of paths in the counter that `file_type` names; `None`
    /// where it is zero or no counters were read.
    pub fn get_file_status_for_type(&self, file_type: &str) -> (count: Option<usize>)
        requires
            bucket_named(file_type@) is Some,
        ensures
            count == match self.counts {
                Some(counts) => if counts.of(bucket_named(file_type@)->0) > 0 {
                    Some(counts.of(bucket_named(file_type@)->0))
                } else {
                    None
                },
                None => None,
            },
    {
        match (self.counts, file_bucket(file_type)) {
            (Some(counts), Some(bucket)) => {
                let count = counts.get(bucket);
                if count > 0 {
                    Some(count)
                } else {
                    None
                }
            },
            _ => None,
        }
    }

    /// The value for a repository with the given counters.
    pub fn of_counts(
        simple_value: &SimpleValue,
        bucket: FileBucket,
        counts: Option<FileCounts>,
        debug: bool,
    ) -> (status: FileStatus)
        ensures
            status.value == *simple_value,
            status.bucket == bucket,
            status.counts == counts,
            status.debug == debug,
    {
        FileStatus { value: simple_value.clone(), bucket: bucket, counts: counts, debug: debug }
    }

    /// The value for the repository of `backend`, whose status is read.
    pub fn new(
        simple_value: &SimpleValue,
        bucket: FileBucket,
        backend: &mut Backend,
        debug: bool,
    ) -> (status: FileStatus)
        ensures
            status.value == *simple_value,
            status.bucket == bucket,
            status.debug == debug,
            status.counts is Some,
            final(backend).cache.file_statuses == status.counts,
            old(backend).cache.file_statuses is Some ==> final(backend).cache == old(backend).cache,
            final(backend).cache.current_branch_name == old(backend).cache.current_branch_name,
            final(backend).cache.repository_operation == old(backend).cache.repository_operation,
            final(backend).cache.stash_count == old(backend).cache.stash_count,
            final(backend).debug == old(backend).debug,
            log_grown(old(backend).debug, old(backend).log@, final(backend).log@),
    {
        let counts = backend.get_file_status();
        FileStatus::of_counts(simple_value, bucket, counts, debug)
    }
}

/// Shows the number of stashed states.
#[derive(Debug)]
pub struct StashStatus {
    pub debug: bool,
    pub value: SimpleValue,
    pub count: u16,
}

impl Display for StashStatus {
    open spec fn rendered(&self) -> Option<Seq<char>> {
        count_segment(self.value@, self.count as nat)
    }

    fn display(&self) -> (segment: Option<String>) {
        render_count(&self.value, self.count as usize)
    }
}

impl StashStatus {
    /// The value for a repository with `count` stashed states.
    pub fn of_count(simple_value: &SimpleValue, count: u16, debug: bool) -> (status: StashStatus)
        ensures
            status.value == *simple_value,
            status.count == count,
            status.debug == debug,
    {
        StashStatus { value: simple_value.clone(), count: count, debug: debug }
    }

    /// The value for the repository of `backend`, whose stash is read.
    pub fn new(
        simple_value: &SimpleValue,
        backend: &mut Backend,
        debug: bool,
    ) -> (status: StashStatus)
        ensures
            status.value == *simple_value,
            status.debug == debug,
            final(backend).cache.stash_count == Some(status.count),
            old(backend).cache.stash_count is Some ==> final(backend).cache == old(backend).cache,
            final(backend).cache.current_branch_name == old(backend).cache.current_branch_name,
            final(backend).cache.file_statuses == old(backend).cache.file_statuses,
            final(backend).cache.repository_operation == old(backend).cache.repository_operation,
            final(backend).debug == old(backend).debug,
            log_grown(old(backend).debug, old(backend).log@, final(backend).log@),
    {
        let count = backend.get_stash_count();
        StashStatus::of_count(simple_value, count, debug)
    }
}

/// The text of `name`, or the empty text where there is none.
pub open spec fn text_or_empty(name: Option<Seq<char>>) -> Seq<char> {
    match name {
        Some(text) => text,
        None => Seq::empty(),
    }
}

/// The special values of a `name`, with what stands for each: the names of
/// the current branch, of the remote's branch and of the remote. A name
/// that is not known is empty.
pub open spec fn special_values_of(stats: Divergence) -> Seq<(Seq<char>, Seq<char>)> {
    seq![
        ("<LOCAL_BRANCH>"@, text_or_empty(stats.local_branch_name)),
        ("<REMOTE_BRANCH>"@, text_or_empty(stats.remote_branch_name)),
        ("<REMOTE>"@, text_or_empty(stats.remote_name)),
    ]
}

/// The special values of a `name`, with what stands for each.
pub fn special_values(stats: &BranchAheadBehind) -> (values: Vec<(String, String)>)
    ensures
        pairs_text(values@) == special_values_of(stats@),
{
    let local = match &stats.local_branch_name {
        Some(name) => name.clone(),
        None => String::new(),
    };
    let remote_branch = match &stats.remote_branch_name {
        Some(name) => name.clone(),
        None => String::new(),
    };
    let remote = match &stats.remote_name {
        Some(name) => name.clone(),
        None => String::new(),
    };
    let mut values: Vec<(String, String)> = Vec::new();
    values.push((String::from_str("<LOCAL_BRANCH>"), local));
    values.push((String::from_str("<REMOTE_BRANCH>"), remote_branch));
    values.push((String::from_str("<REMOTE>"), remote));
    assert(pairs_text(values@) =~= special_values_of(stats@));
    values
}

/// Whether a `remote_difference` is hidden because nothing differs.
pub open spec fn hidden_as_uptodate(display_if_uptodate: bool, stats: Divergence) -> bool {
    !display_if_uptodate && stats.ahead == 0 && stats.behind == 0
}

/// What one value inside a `remote_difference` shows, with `specials` as
/// the special values and what stands for each. A `name` shows its format
/// strings with the special values replaced, whatever the counts are;
/// `ahead` and `behind` show their count where it is not zero.
pub open spec fn remote_value_shows(
    child: RemoteValueText,
    display_if_uptodate: bool,
    stats: Divergence,
    specials: Seq<(Seq<char>, Seq<char>)>,
) -> Option<Seq<char>> {
    if hidden_as_uptodate(display_if_uptodate, stats) {
        None
    } else {
        match child.kind {
            RemoteValueKind::Name => Some(
                formatted(
                    substituted(child.value.pre_format, specials),
                    substituted(child.value.post_format, specials),
                    Seq::empty(),
                ),
            ),
            RemoteValueKind::Ahead => count_segment(child.value, stats.ahead),
            RemoteValueKind::Behind => count_segment(child.value, stats.behind),
        }
    }
}

/// What one value inside a `remote_difference` shows for the given state
/// of the two branches.
pub open spec fn remote_value_segment(
    child: RemoteValueText,
    display_if_uptodate: bool,
    stats: Divergence,
) -> Option<Seq<char>> {
    remote_value_shows(child, display_if_uptodate, stats, special_values_of(stats))
}

/// What the values inside a `remote_difference` show, one after the other
/// in the order of their declaration.
pub open spec fn remote_values_joined(
    children: Seq<RemoteValueText>,
    display_if_uptodate: bool,
    stats: Divergence,
) -> Seq<char>
    decreases children.len(),
{
    if children.len() == 0 {
        Seq::empty()
    } else {
        remote_values_joined(children.drop_last(), display_if_uptodate, stats) + text_or_empty(
            remote_value_segment(children.last(), display_if_uptodate, stats),
        )
    }
}

/// What a `remote_difference` shows. Nothing, where no remote branch was
/// found to compare with; nothing, where nothing differs and such a state
/// is not to be shown; nothing, where what its values show comes to no
/// text at all. Else what its values show, joined.
pub open spec fn remote_segment(
    children: Seq<RemoteValueText>,
    display_if_uptodate: bool,
    stats: Option<Divergence>,
) -> Option<Seq<char>> {
    match stats {
        None => None,
        Some(stats) => if stats.remote_name is None {
            None
        } else if remote_values_joined(children, display_if_uptodate, stats).len() > 0 {
            Some(remote_values_joined(children, display_if_uptodate, stats))
        } else {
            None
        },
    }
}

/// A `remote_difference` that hides an up-to-date state shows nothing when
/// the branches do not differ, whatever values it holds.
pub proof fn lemma_uptodate_is_hidden(children: Seq<RemoteValueText>, stats: Divergence)
    requires
        stats.ahead == 0,
        stats.behind == 0,
    ensures
        remote_values_joined(children, false, stats) == Seq::<char>::empty(),
        remote_segment(children, false, Some(stats)) is None,
    decreases children.len(),
{
    if children.len() > 0 {
        lemma_uptodate_is_hidden(children.drop_last(), stats);
        assert(remote_value_segment(children.last(), false, stats) is None);
        assert(Seq::<char>::empty() + Seq::<char>::empty() =~= Seq::<char>::empty());
    }
}

/// Shows how far the current branch and a branch of a remote have
/// diverged.
#[derive(Debug)]
pub struct RemoteTracking<'a> {
    pub remote_branch: &'a Option<RemoteBranch>,
    pub display_if_uptodate: bool,
    pub debug: bool,
    pub value: &'a SimpleValue,
    pub values: &'a Vec<RemoteValue>,
    /// What was read of the two branches; `None` where HEAD points to no
    /// commit.
    pub stats: Option<BranchAheadBehind>,
}

impl<'a> Display for RemoteTracking<'a> {
    open spec fn rendered(&self) -> Option<Seq<char>> {
        remote_segment(
            remote_values_text(self.values@),
            self.display_if_uptodate,
            stats_text(self.stats),
        )
    }

    fn display(&self) -> (segment: Option<String>)
        ensures
            (!self.display_if_uptodate && self.stats is Some && self.stats->0.ahead == 0
                && self.stats->0.behind == 0) ==> segment is None,
    {
        let a_b = match &self.stats {
            Some(x) => x,
            None => {
                return None;
            },
        };
        if a_b.remote_name.is_none() {
            return None;
        }
        let special_values = special_values(a_b);
        let ghost children = remote_values_text(self.values@);
        let mut response = String::new();
        let mut i: usize = 0;
        while i < self.values.len()
            invariant
                i <= self.values@.len(),
                children == remote_values_text(self.values@),
                pairs_text(special_values@) == special_values_of(a_b@),
                response@ == remote_values_joined(
                    children.subrange(0, i as int),
                    self.display_if_uptodate,
                    a_b@,
                ),
            decreases self.values@.len() - i,
        {
            proof {
                let next = children.subrange(0, i + 1);
                assert(next.drop_last() =~= children.subrange(0, i as int));
                assert(next.last() == self.values@[i as int]@);
            }
            match self.display_value(&self.values[i], a_b, &special_values) {
                Some(s) => {
                    response.append(s.as_str());
                },
                None => {
                    assert(response@ + Seq::<char>::empty() =~= response@);
                },
            }
            i += 1;
        }
        assert(children.subrange(0, i as int) =~= children);
        proof {
            if !self.display_if_uptodate && a_b.ahead == 0 && a_b.behind == 0 {
                lemma_uptodate_is_hidden(children, a_b@);
            }
        }
        if response.as_str().is_empty() {
            None
        } else {
            Some(response)
        }
    }
}

impl<'a> RemoteTracking<'a> {
    /// The value for branches that have diverged as `stats` tells.
    pub fn of_stats(
        descriptor: &'a ValueDescriptor,
        stats: Option<BranchAheadBehind>,
        debug: bool,
    ) -> (tracking: RemoteTracking<'a>)
        ensures
            tracking.remote_branch == &descriptor.remote_branch,
            tracking.display_if_uptodate == descriptor.display_if_uptodate,
            tracking.debug == debug,
            tracking.value == &descriptor.value,
            tracking.values == &descriptor.children,
            tracking.stats == stats,
    {
        RemoteTracking {
            remote_branch: &descriptor.remote_branch,
            display_if_uptodate: descriptor.display_if_uptodate,
            debug: debug,
            value: &descriptor.value,
            values: &descriptor.children,
            stats: stats,
        }
    }

    /// The value for the repository of `backend`, whose branches are read.
    pub fn new(
        descriptor: &'a ValueDescriptor,
        backend: &mut Backend,
        debug: bool,
    ) -> (tracking: RemoteTracking<'a>)
        ensures
            tracking.remote_branch == &descriptor.remote_branch,
            tracking.display_if_uptodate == descriptor.display_if_uptodate,
            tracking.debug == debug,
            tracking.value == &descriptor.value,
            tracking.values == &descriptor.children,
            final(backend).cache.current_branch_name is Some,
            tracking.stats is Some ==> tracking.stats->0.local_branch_name
                == final(backend).cache.current_branch_name,
            (tracking.stats is Some && tracking.stats->0.remote_name is Some
                && descriptor.remote_branch is Some) ==> {
                &&& tracking.stats->0.remote_name == Some(descriptor.remote_branch->0.remote_name)
                &&& tracking.stats->0.remote_branch_name == Some(
                    descriptor.remote_branch->0.remote_branch_name,
                )
            },
            old(backend).cache.current_branch_name is Some ==> final(backend).cache
                == old(backend).cache,
            final(backend).cache.file_statuses == old(backend).cache.file_statuses,
            final(backend).cache.repository_operation == old(backend).cache.repository_operation,
            final(backend).cache.stash_count == old(backend).cache.stash_count,
            final(backend).debug == old(backend).debug,
            log_grown(old(backend).debug, old(backend).log@, final(backend).log@),
    {
        let remote_branch = match &descriptor.remote_branch {
            Some(branch) => Some(branch.clone()),
            None => None,
        };
        let stats = backend.get_branch_ahead_behind(remote_branch);
        RemoteTracking::of_stats(descriptor, stats, debug)
    }

    /// What a `name` shows: its format strings, with the special values
    /// replaced.
    pub fn display_name(
        &self,
        value: &SimpleValue,
        special_values: &Vec<(String, String)>,
    ) -> (segment: Option<String>)
        ensures
            text_of(segment) == Some(
                formatted(
                    substituted(value.pre_format@, pairs_text(special_values@)),
                    substituted(value.post_format@, pairs_text(special_values@)),
                    Seq::empty(),
                ),
            ),
    {
        let pre = substiute_special_values(value.pre_format.clone(), special_values);
        let post = substiute_special_values(value.post_format.clone(), special_values);
        proof {
            reveal_strlit("");
            assert(""@ =~= Seq::<char>::empty());
        }
        Some(format_value(pre.as_str(), post.as_str(), ""))
    }

    /// What an `ahead` shows: the count, where it is not zero.
    pub fn display_ahead(&self, value: &SimpleValue, ahead: usize) -> (segment: Option<String>)
        ensures
            text_of(segment) == count_segment(value@, ahead as nat),
    {
        render_count(value, ahead)
    }

    /// What a `behind` shows: the count, where it is not zero.
    pub fn display_behind(&self, value: &SimpleValue, behind: usize) -> (segment: Option<String>)
        ensures
            text_of(segment) == count_segment(value@, behind as nat),
    {
        render_count(value, behind)
    }

    /// What one of the values inside shows.
    pub fn display_value(
        &self,
        simple_value: &RemoteValue,
        a_b: &BranchAheadBehind,
        special_values: &Vec<(String, String)>,
    ) -> (segment: Option<String>)
        ensures
            text_of(segment) == remote_value_shows(
                simple_value@,
                self.display_if_uptodate,
                a_b@,
                pairs_text(special_values@),
            ),
    {
        if !(self.display_if_uptodate || a_b.ahead > 0 || a_b.behind > 0) {
            return None;
        }
        match simple_value.kind {
            RemoteValueKind::Name => self.display_name(&simple_value.value, special_values),
            RemoteValueKind::Ahead => self.display_ahead(&simple_value.value, a_b.ahead),
            RemoteValueKind::Behind => self.display_behind(&simple_value.value, a_b.behind),
        }
    }
}

/// What a value other than a `remote_difference` shows, given what was
/// read of the repository. A `separator` shows its format strings: whether
/// it is shown at all is decided where the values are joined.
pub open spec fn cached_segment(descriptor: DescriptorText, cache: Cache) -> Option<Seq<char>> {
    match descriptor.kind {
        ValueKind::RepositoryState => match cache.repository_operation {
            Some(state) => state_segment(descriptor.value, state),
            None => None,
        },
        ValueKind::Stash => match cache.stash_count {
            Some(count) => count_segment(descriptor.value, count as nat),
            None => None,
        },
        ValueKind::Separator => Some(separator_text(descriptor.value)),
        ValueKind::RemoteDifference => None,
        _ => match cache.file_statuses {
            Some(counts) => count_segment(
                descriptor.value,
                counts.of(descriptor.kind.bucket_of()->0) as nat,
            ),
            None => None,
        },
    }
}

/// Whether `later` holds all that `earlier` holds: what was read once
/// stays as it was read.
pub open spec fn cache_kept(earlier: Cache, later: Cache) -> bool {
    &&& earlier.current_branch_name is Some ==> later.current_branch_name
        == earlier.current_branch_name
    &&& earlier.file_statuses is Some ==> later.file_statuses == earlier.file_statuses
    &&& earlier.repository_operation is Some ==> later.repository_operation
        == earlier.repository_operation
    &&& earlier.stash_count is Some ==> later.stash_count == earlier.stash_count
}

/// Whether `stats` can be what was read of the two branches for a
/// `remote_difference`, with `cache` holding what is known of the
/// repository: the name of the current branch is known and is the one in
/// `stats`; and where the declaration names a remote branch and a remote
/// was found, the names in `stats` are those of the declaration.
pub open spec fn stats_fit(
    descriptor: DescriptorText,
    stats: Option<Divergence>,
    cache: Cache,
) -> bool {
    &&& cache.current_branch_name is Some
    &&& stats is Some ==> stats->0.local_branch_name == text_of(cache.current_branch_name)
    &&& (stats is Some && stats->0.remote_name is Some && descriptor.remote_branch is Some) ==> {
        &&& stats->0.remote_name == Some(descriptor.remote_branch->0.remote_name)
        &&& stats->0.remote_branch_name == Some(descriptor.remote_branch->0.remote_branch_name)
    }
}

/// Whether `segment` is what a `remote_difference` shows for some state of
/// the two branches that fits the declaration and what is known of the
/// repository. How far the branches are apart is not kept in the cache.
pub open spec fn remote_shown_for(
    descriptor: DescriptorText,
    segment: Option<Seq<char>>,
    cache: Cache,
) -> bool {
    exists|stats: Option<Divergence>|
        stats_fit(descriptor, stats, cache) && segment == #[trigger] remote_segment(
            descriptor.children,
            descriptor.display_if_uptodate,
            stats,
        )
}

/// Whether `segment` is what a value shows for a repository of which
/// `cache` holds what was read.
pub open spec fn shown_for(
    descriptor: DescriptorText,
    segment: Option<Seq<char>>,
    cache: Cache,
) -> bool {
    match descriptor.kind {
        ValueKind::RepositoryState => cache.repository_operation is Some && segment
            == cached_segment(descriptor, cache),
        ValueKind::Stash => cache.stash_count is Some && segment == cached_segment(
            descriptor,
            cache,
        ),
        ValueKind::Separator => segment == cached_segment(descriptor, cache),
        ValueKind::RemoteDifference => remote_shown_for(descriptor, segment, cache),
        _ => cache.file_statuses is Some && segment == cached_segment(descriptor, cache),
    }
}

/// What a value was found to show stays what it shows when more of the
/// repository is read.
pub proof fn lemma_shown_for_kept(
    descriptor: DescriptorText,
    segment: Option<Seq<char>>,
    earlier: Cache,
    later: Cache,
)
    requires
        shown_for(descriptor, segment, earlier),
        cache_kept(earlier, later),
    ensures
        shown_for(descriptor, segment, later),
{
    if descriptor.kind == ValueKind::RemoteDifference {
        let stats = choose|stats: Option<Divergence>|
            stats_fit(descriptor, stats, earlier) && segment == #[trigger] remote_segment(
                descriptor.children,
                descriptor.display_if_uptodate,
                stats,
            );
        assert(stats_fit(descriptor, stats, later) && segment == remote_segment(
            descriptor.children,
            descriptor.display_if_uptodate,
            stats,
        ));
    }
}

/// Renders the values of a prompt from one repository.
pub struct DisplayMaster {
    pub backend: Backend,
    pub debug: bool,
}

impl DisplayMaster {
    /// A renderer for the repository of `backend`.
    pub fn new(backend: Backend, debug: bool) -> (master: DisplayMaster)
        ensures
            master.backend == backend,
            master.debug == debug,
    {
        DisplayMaster { backend: backend, debug: debug }
    }

    /// Renders one value. What it needs of the repository is read, unless
    /// it was read before.
    ///
    /// A value other than a `remote_difference` shows what `cached_segment`
    /// gives for what is known of the repository after the call. A
    /// `remote_difference` shows what `remote_segment` gives for what was
    /// read of the two branches.
    pub fn display_value(&mut self, descriptor: &ValueDescriptor) -> (segment: Option<String>)
        ensures
            descriptor.kind != ValueKind::RemoteDifference ==> text_of(segment) == cached_segment(
                descriptor@,
                final(self).backend.cache,
            ),
            descriptor.kind == ValueKind::RepositoryState ==> final(self)
                .backend.cache.repository_operation is Some,
            descriptor.kind == ValueKind::Stash ==> final(self).backend.cache.stash_count is Some,
            descriptor.kind == ValueKind::RemoteDifference ==> remote_shown_for(
                descriptor@,
                text_of(segment),
                final(self).backend.cache,
            ),
            shown_for(descriptor@, text_of(segment), final(self).backend.cache),
            cache_kept(old(self).backend.cache, final(self).backend.cache),
            final(self).debug == old(self).debug,
            final(self).backend.debug == old(self).backend.debug,
            log_grown(
                old(self).backend.debug,
                old(self).backend.log@,
                final(self).backend.log@,
            ),
    {
        if self.debug {
            self.backend.note(message_about("display ", descriptor.value.value_type.as_str()));
        }
        match descriptor.kind {
            ValueKind::RepositoryState => RepoStatus::new(
                &descriptor.value,
                &mut self.backend,
                self.debug,
            ).display(),
            ValueKind::New => FileStatus::new(
                &descriptor.value,
                FileBucket::New,
                &mut self.backend,
                self.debug,
            ).display(),
            ValueKind::Changed => FileStatus::new(
                &descriptor.value,
                FileBucket::Changed,
                &mut self.backend,
                self.debug,
            ).display(),
            ValueKind::Staged => FileStatus::new(
                &descriptor.value,
                FileBucket::Staged,
                &mut self.backend,
                self.debug,
            ).display(),
            ValueKind::Conflicts => FileStatus::new(
                &descriptor.value,
                FileBucket::Conflicts,
                &mut self.backend,
                self.debug,
            ).display(),
            ValueKind::Stash => StashStatus::new(
                &descriptor.value,
                &mut self.backend,
                self.debug,
            ).display(),
            ValueKind::Separator => {
                proof {
                    reveal_strlit("");
                    assert(""@ =~= Seq::<char>::empty());
                }
                Some(
                    format_value(
                        descriptor.value.pre_format.as_str(),
                        descriptor.value.post_format.as_str(),
                        "",
                    ),
                )
            },
            ValueKind::RemoteDifference => {
                let tracking = RemoteTracking::new(descriptor, &mut self.backend, self.debug);
                let segment = tracking.display();
                proof {
                    let stats = stats_text(tracking.stats);
                    assert(stats_fit(descriptor@, stats, self.backend.cache));
                    assert(text_of(segment) == remote_segment(
                        descriptor@.children,
                        descriptor.display_if_uptodate,
                        stats,
                    ));
                }
                segment
            },
        }
    }
}

} // verus!
