//! The configuration of a prompt: which values it shows, in which order,
//! and how what they show is joined.

use vstd::prelude::*;
use vstd::string::StringExecFns;
use crate::backend::Cache;
use crate::backend::lemma_log_grown_twice;
use crate::backend::log_grown;
use crate::backend::text_of;
use crate::constants::CURRENT_CONFIG_VERSION;
use crate::error::ConfigError;
use crate::error::ConfigFault;
use crate::error::Field;
use crate::models::DescriptorText;
use crate::models::DisplayMaster;
use crate::models::SimpleValue;
use crate::models::ValueDescriptor;
use crate::models::ValueKind;
use crate::models::ValueText;
use crate::models::cache_kept;
use crate::models::descriptor_of;
use crate::models::format_value;
use crate::models::lemma_shown_for_kept;
use crate::models::separator_text;
use crate::models::shown_for;
use crate::node::ConfNode;
use crate::node::first_document;
use crate::node::parse_document;
use crate::node::yaml_documents;
use crate::text::str_eq;

verus! {

/// The configuration that is used where the user has none.
pub const DEFAULT_CONF: &'static str = "---
# default configuration for pretty-git-prompt
# configuration parameters are descrbed on first occurence only
#
# version of configuration file (required), type string
# right now it needs to be set to '1'
version: '1'
# configuration of various values (required), type dict
# if you omit a value, it won't be displayed
values:
      # usually repository is in state 'clean' (which is not displayed)
      # but it can also be in state like merge, rebase, cherry-pick -- this is displayed then
    - type: repository_state
      # formatting (required), both (pre_format, post_format) are required
      # you can include coloring in pre_format and reset colors in post_format
      # you can also include arbitrary string
      # for more information about setting colors for zsh:
      # https://wiki.archlinux.org/index.php/zsh#Colors
      # http://zsh.sourceforge.net/Doc/Release/Prompt-Expansion.html#Visual-effects
      # and bash:
      # https://www.ibm.com/developerworks/linux/library/l-tip-prompt/
      #
      # this is how the value is formatted in the end:
      #   [pre_format][value][post_format]
      pre_format: ''
      post_format: ''
      # this is used to separate values between each other
    - type: separator
      # condition when to display the separator (required), type string
      # possible values:
      #  * always -- display no matter what
      #  * surrounded -- show only when there is a value displayed before of after separator
      display: surrounded
      pre_format: '│'
      post_format: ''
      # monitor status against different remotes - track history divergence
    - type: remote_difference
      # remote branch name (optional), type string
      # example: 'upstream/master'
      # if omitted look for remotely tracked branch usually set up with:
      #   git branch --set-upstream-to
      # remote_branch: ''
      # display the remote even if there is no difference with current branch (required), type bool
      display_if_uptodate: true
      pre_format: ''
      post_format: ''
      # values which can be displayed as part of 'remote_difference'
      values:
          # formatting for remote name and branch name
        - type: name
          # there are some special values which are substituted:
          #  * <REMOTE> will be replaced with name of a remote
          #  * <LOCAL_BRANCH> will be replaced with current branch name
          #  * <REMOTE_BRANCH> will be replaced with name of remote branch
          pre_format: '<LOCAL_BRANCH>'
          post_format: ''
          # the number of files present locally which are missing in remote repo
        - type: ahead
          pre_format: '↑'
          post_format: ''
          # the number of commits present in remote repo which are missing locally
        - type: behind
          pre_format: '↓'
          post_format: ''
    - type: separator
      display: surrounded
      pre_format: '│'
      post_format: ''
    - type: remote_difference
      remote_branch: 'upstream/master'
      display_if_uptodate: false
      pre_format: ''
      post_format: ''
      values:
        - type: name
          pre_format: '<REMOTE>'
          post_format: ''
        - type: ahead
          pre_format: '↑'
          post_format: ''
        - type: behind
          pre_format: '↓'
          post_format: ''
    - type: separator
      display: surrounded
      pre_format: '│'
      post_format: ''
      # the number of untracked files
    - type: new
      pre_format: '✚'
      post_format: ''
      # the number of tracked files which were changed in working tree
    - type: changed
      pre_format: 'Δ'
      post_format: ''
      # the number of files added to index
    - type: staged
      pre_format: '▶'
      post_format: ''
      # during merge, rebase, or others, the numbers files which conflict
    - type: conflicts
      pre_format: '✖'
      post_format: ''
    - type: stash
      pre_format: '☐'
      post_format: ''
";

/// A piece of text that is put between two values.
#[derive(Debug)]
pub struct Separator {
    pub value: SimpleValue,
    /// `always`, or `surrounded`: shown only between two values that are
    /// shown.
    pub display: String,
}

/// A `Separator` with its texts as sequences of characters.
pub struct SeparatorText {
    pub value: ValueText,
    pub display: Seq<char>,
}

impl View for Separator {
    type V = SeparatorText;

    open spec fn view(&self) -> SeparatorText {
        SeparatorText { value: self.value@, display: self.display@ }
    }
}

/// When a separator is shown, as its declaration says: `always` or
/// `surrounded`. A declaration that says nothing means `surrounded`.
pub open spec fn separator_display_of(node: ConfNode) -> Result<Seq<char>, ConfigFault> {
    if node.lacks("display"@) {
        Ok("surrounded"@)
    } else {
        match node.text_at("display"@) {
            None => Err(ConfigFault::InvalidSeparatorDisplay { found: Seq::empty() }),
            Some(display) => if display == "always"@ || display == "surrounded"@ {
                Ok(display)
            } else {
                Err(ConfigFault::InvalidSeparatorDisplay { found: display })
            },
        }
    }
}

impl Separator {
    /// Reads what the declaration of a separator holds beyond its type
    /// and format strings, which are `simple_value`.
    pub fn new(
        value_yaml: &ConfNode,
        simple_value: &SimpleValue,
    ) -> (separator: Result<Separator, ConfigError>)
        ensures
            match separator {
                Ok(s) => separator_display_of(*value_yaml) == Ok::<Seq<char>, ConfigFault>(
                    s.display@,
                ) && s.value == *simple_value,
                Err(error) => separator_display_of(*value_yaml) == Err::<Seq<char>, ConfigFault>(
                    error@,
                ),
            },
    {
        if value_yaml.is_missing("display") {
            return Ok(
                Separator { value: simple_value.clone(), display: String::from_str("surrounded") },
            );
        }
        match value_yaml.get_str("display") {
            Some(s) => {
                if str_eq(s, "always") || str_eq(s, "surrounded") {
                    Ok(Separator { value: simple_value.clone(), display: String::from_str(s) })
                } else {
                    Err(ConfigError::InvalidSeparatorDisplay { found: String::from_str(s) })
                }
            },
            None => {
                let invalid = ConfigError::InvalidSeparatorDisplay { found: String::new() };
                assert(invalid@.arrow_InvalidSeparatorDisplay_found() =~= Seq::empty());
                Err(invalid)
            },
        }
    }

    /// Whether the separator is shown whatever stands round it.
    pub fn is_display_always(&self) -> (always: bool)
        ensures
            always == (self.display@ == "always"@),
    {
        str_eq(self.display.as_str(), "always")
    }

    /// The text of the separator.
    pub fn display(&self) -> (segment: Option<String>)
        ensures
            text_of(segment) == Some(separator_text(self.value@)),
    {
        proof {
            reveal_strlit("");
            assert(""@ =~= Seq::<char>::empty());
        }
        Some(format_value(self.value.pre_format.as_str(), self.value.post_format.as_str(), ""))
    }
}

/// One entry of the list of values of a configuration.
#[derive(Debug)]
pub enum ConfValue {
    Separator(Separator),
    Shown(ValueDescriptor),
}

/// A `ConfValue` with its texts as sequences of characters.
pub enum EntryText {
    Separator(SeparatorText),
    Shown(DescriptorText),
}

impl View for ConfValue {
    type V = EntryText;

    open spec fn view(&self) -> EntryText {
        match *self {
            ConfValue::Separator(separator) => EntryText::Separator(separator@),
            ConfValue::Shown(descriptor) => EntryText::Shown(descriptor@),
        }
    }
}

/// The views of a list of entries.
pub open spec fn entries_text(entries: Seq<ConfValue>) -> Seq<EntryText> {
    entries.map_values(|entry: ConfValue| entry@)
}

/// What one declaration of the list of values holds, or the first thing
/// that is wrong with it.
pub open spec fn entry_of(node: ConfNode) -> Result<EntryText, ConfigFault> {
    match descriptor_of(node) {
        Err(fault) => Err(fault),
        Ok(descriptor) => if descriptor.kind == ValueKind::Separator {
            match separator_display_of(node) {
                Err(fault) => Err(fault),
                Ok(display) => Ok(
                    EntryText::Separator(
                        SeparatorText { value: descriptor.value, display: display },
                    ),
                ),
            }
        } else {
            Ok(EntryText::Shown(descriptor))
        },
    }
}

/// What a list of declarations holds, or what is wrong with the first of
/// them that is not in order.
pub open spec fn entries_of(nodes: Seq<ConfNode>) -> Result<Seq<EntryText>, ConfigFault>
    decreases nodes.len(),
{
    if nodes.len() == 0 {
        Ok(Seq::empty())
    } else {
        match entries_of(nodes.drop_last()) {
            Err(fault) => Err(fault),
            Ok(entries) => match entry_of(nodes.last()) {
                Err(fault) => Err(fault),
                Ok(entry) => Ok(entries.push(entry)),
            },
        }
    }
}

/// A fault in the first `n` declarations is the fault of the whole list.
pub proof fn lemma_entries_fault(nodes: Seq<ConfNode>, n: int)
    requires
        0 <= n <= nodes.len(),
        entries_of(nodes.subrange(0, n)) is Err,
    ensures
        entries_of(nodes) == entries_of(nodes.subrange(0, n)),
    decreases nodes.len() - n,
{
    if n < nodes.len() {
        assert(nodes.subrange(0, n + 1).drop_last() =~= nodes.subrange(0, n));
        lemma_entries_fault(nodes, n + 1);
    } else {
        assert(nodes.subrange(0, n) =~= nodes);
    }
}

/// Declarations that are all in order make a list that is in order.
proof fn lemma_entries_in_order(nodes: Seq<ConfNode>)
    requires
        forall|k: int| 0 <= k < nodes.len() ==> entry_of(#[trigger] nodes[k]) is Ok,
    ensures
        entries_of(nodes) is Ok,
    decreases nodes.len(),
{
    if nodes.len() > 0 {
        let before = nodes.drop_last();
        assert forall|k: int| 0 <= k < before.len() implies entry_of(#[trigger] before[k]) is Ok by {
            assert(before[k] == nodes[k]);
        }
        lemma_entries_in_order(before);
        assert(entry_of(nodes[nodes.len() - 1]) is Ok);
    }
}

/// The first declaration that is not in order decides: the list has its
/// fault, wherever in the list it stands and whatever follows it.
pub proof fn lemma_first_fault_decides(nodes: Seq<ConfNode>, at: int)
    requires
        0 <= at < nodes.len(),
        forall|k: int| 0 <= k < at ==> entry_of(#[trigger] nodes[k]) is Ok,
        entry_of(nodes[at]) is Err,
    ensures
        entries_of(nodes) == Err::<Seq<EntryText>, ConfigFault>(entry_of(nodes[at])->Err_0),
{
    let before = nodes.subrange(0, at);
    let upto = nodes.subrange(0, at + 1);
    assert forall|k: int| 0 <= k < before.len() implies entry_of(#[trigger] before[k]) is Ok by {
        assert(before[k] == nodes[k]);
    }
    lemma_entries_in_order(before);
    assert(upto.drop_last() =~= before);
    assert(upto.last() == nodes[at]);
    lemma_entries_fault(nodes, at + 1);
}

/// A declaration with a type and without `pre_format` is not in order: its
/// fault names the key and the declaration.
pub proof fn lemma_missing_pre_format(node: ConfNode)
    requires
        node.text_at(Field::Type.key()) is Some,
        node.text_at(Field::PreFormat.key()) is None,
    ensures
        entry_of(node) == Err::<EntryText, ConfigFault>(
            ConfigFault::MissingField {
                field: Field::PreFormat,
                declaration: node.text_at(Field::Type.key())->0,
            },
        ),
{
}

/// What is wrong with the version that a document declares, if anything.
pub open spec fn version_fault(document: ConfNode) -> Option<ConfigFault> {
    if document.lacks("version"@) {
        Some(ConfigFault::MissingVersion)
    } else {
        match document.text_at("version"@) {
            None => Some(ConfigFault::VersionNotText),
            Some(version) => if version == CURRENT_CONFIG_VERSION@ {
                None
            } else {
                Some(ConfigFault::UnsupportedVersion { found: version })
            },
        }
    }
}

/// The values that a document declares, or the first thing that is wrong
/// with it: its version first, then its list of values, then each value
/// in turn.
pub open spec fn conf_of(document: ConfNode) -> Result<Seq<EntryText>, ConfigFault> {
    match version_fault(document) {
        Some(fault) => Err(fault),
        None => if document.lacks("values"@) {
            Err(ConfigFault::MissingValues)
        } else {
            match document.list_at("values"@) {
                None => Err(ConfigFault::ValuesNotList),
                Some(nodes) => entries_of(nodes),
            }
        },
    }
}

/// Reads one declaration of the list of values.
pub fn parse_entry(node: &ConfNode) -> (entry: Result<ConfValue, ConfigError>)
    ensures
        crate::error::result_view(entry) == entry_of(*node),
{
    let descriptor = match ValueDescriptor::new(node) {
        Ok(d) => d,
        Err(e) => {
            return Err(e);
        },
    };
    match descriptor.kind {
        ValueKind::Separator => match Separator::new(node, &descriptor.value) {
            Ok(separator) => Ok(ConfValue::Separator(separator)),
            Err(e) => Err(e),
        },
        _ => Ok(ConfValue::Shown(descriptor)),
    }
}

/// Checks the version that a document declares.
pub fn check_version(document: &ConfNode) -> (checked: Result<(), ConfigError>)
    ensures
        match checked {
            Ok(_) => version_fault(*document) is None,
            Err(error) => version_fault(*document) == Some(error@),
        },
{
    if document.is_missing("version") {
        return Err(ConfigError::MissingVersion);
    }
    match document.get_str("version") {
        Some(s) => {
            if str_eq(s, CURRENT_CONFIG_VERSION) {
                Ok(())
            } else {
                Err(ConfigError::UnsupportedVersion { found: String::from_str(s) })
            }
        },
        None => Err(ConfigError::VersionNotText),
    }
}

/// The values of a prompt and the renderer that shows them.
pub struct Conf {
    pub values: Vec<ConfValue>,
    pub display_master: DisplayMaster,
}

/// What one entry of a configuration came to when it was rendered.
#[derive(Debug)]
pub enum RenderedPiece {
    /// The text of a separator, and whether it is shown whatever stands
    /// round it.
    Separator { text: String, always: bool },
    /// What a value shows; `None` where it shows nothing.
    Value(Option<String>),
}

/// A `RenderedPiece` with its texts as sequences of characters.
pub enum Piece {
    Separator { text: Seq<char>, always: bool },
    Value(Option<Seq<char>>),
}

impl View for RenderedPiece {
    type V = Piece;

    open spec fn view(&self) -> Piece {
        match *self {
            RenderedPiece::Separator { text, always } => Piece::Separator {
                text: text@,
                always: always,
            },
            RenderedPiece::Value(segment) => Piece::Value(text_of(segment)),
        }
    }
}

/// The views of a list of pieces.
pub open spec fn pieces_text(pieces: Seq<RenderedPiece>) -> Seq<Piece> {
    pieces.map_values(|piece: RenderedPiece| piece@)
}

/// A separator that is shown only between two values that are shown.
pub open spec fn surrounded(text: Seq<char>) -> Piece {
    Piece::Separator { text: text, always: false }
}

/// Whether a piece is a value that shows something.
pub open spec fn is_shown(piece: Piece) -> bool {
    piece matches Piece::Value(Some(_))
}

/// What is remembered while the pieces are joined.
pub struct JoinState {
    /// Whether a value was shown already.
    pub prev_was_set: bool,
    /// The separator that waits for the next value to be shown.
    pub separator_pending: Option<Seq<char>>,
}

/// What is remembered before the first piece.
pub open spec fn initial_state() -> JoinState {
    JoinState { prev_was_set: false, separator_pending: None }
}

/// What one piece adds to the prompt.
pub open spec fn piece_output(piece: Piece, state: JoinState) -> Seq<char> {
    match piece {
        Piece::Separator { text, always } => if always {
            text
        } else {
            Seq::empty()
        },
        Piece::Value(None) => Seq::empty(),
        Piece::Value(Some(text)) => if state.separator_pending is Some && state.prev_was_set {
            state.separator_pending->0 + text
        } else {
            text
        },
    }
}

/// What is remembered after a piece. A separator that is not shown always
/// waits, and takes the place of one that waited before it. A value that
/// shows nothing changes nothing. A value that is shown uses up the
/// separator that waited, whether that separator was shown or not.
pub open spec fn piece_state(piece: Piece, state: JoinState) -> JoinState {
    match piece {
        Piece::Separator { text, always } => if always {
            state
        } else {
            JoinState { prev_was_set: state.prev_was_set, separator_pending: Some(text) }
        },
        Piece::Value(None) => state,
        Piece::Value(Some(_)) => JoinState { prev_was_set: true, separator_pending: None },
    }
}

/// What the pieces add to the prompt, joined in their order.
pub open spec fn assembled_from(pieces: Seq<Piece>, state: JoinState) -> Seq<char>
    decreases pieces.len(),
{
    if pieces.len() == 0 {
        Seq::empty()
    } else {
        piece_output(pieces[0], state) + assembled_from(
            pieces.drop_first(),
            piece_state(pieces[0], state),
        )
    }
}

/// What is remembered after the pieces.
pub open spec fn state_after(pieces: Seq<Piece>, state: JoinState) -> JoinState
    decreases pieces.len(),
{
    if pieces.len() == 0 {
        state
    } else {
        state_after(pieces.drop_first(), piece_state(pieces[0], state))
    }
}

/// The prompt that the pieces make.
pub open spec fn assembled(pieces: Seq<Piece>) -> Seq<char> {
    assembled_from(pieces, initial_state())
}

/// Joins the pieces into the prompt.
pub fn assemble(pieces: &Vec<RenderedPiece>) -> (out: String)
    ensures
        out@ == assembled(pieces_text(pieces@)),
        out@ == joined(pieces_text(pieces@)),
{
    let ghost all = pieces_text(pieces@);
    proof {
        lemma_assembled_is_joined(all);
    }
    let mut out = String::new();
    let mut prev_was_set = false;
    let mut separator_pending: Option<&str> = None;
    let mut i: usize = 0;
    assert(all.subrange(0, all.len() as int) =~= all);
    assert(out@ + assembled(all) =~= assembled(all));
    while i < pieces.len()
        invariant
            i <= pieces@.len(),
            all == pieces_text(pieces@),
            assembled(all) == out@ + assembled_from(
                all.subrange(i as int, all.len() as int),
                JoinState {
                    prev_was_set: prev_was_set,
                    separator_pending: match separator_pending {
                        Some(text) => Some(text@),
                        None => None,
                    },
                },
            ),
        decreases pieces@.len() - i,
    {
        let ghost rest = all.subrange(i as int, all.len() as int);
        let ghost state = JoinState {
            prev_was_set: prev_was_set,
            separator_pending: match separator_pending {
                Some(text) => Some(text@),
                None => None,
            },
        };
        let ghost before = out@;
        proof {
            assert(rest[0] == pieces@[i as int]@);
            assert(rest.drop_first() =~= all.subrange(i + 1, all.len() as int));
        }
        match &pieces[i] {
            RenderedPiece::Separator { text, always } => {
                if *always {
                    out.append(text.as_str());
                } else {
                    separator_pending = Some(text.as_str());
                }
            },
            RenderedPiece::Value(Some(s)) => {
                if let Some(separator) = separator_pending {
                    if prev_was_set {
                        out.append(separator);
                    }
                }
                separator_pending = None;
                out.append(s.as_str());
                prev_was_set = true;
            },
            RenderedPiece::Value(None) => {},
        }
        proof {
            let tail = assembled_from(rest.drop_first(), piece_state(rest[0], state));
            assert(out@ =~= before + piece_output(rest[0], state));
            assert(before + (piece_output(rest[0], state) + tail) =~= before + piece_output(
                rest[0],
                state,
            ) + tail);
        }
        i += 1;
    }
    assert(out@ + Seq::<char>::empty() =~= out@);
    out
}

/// The pieces are joined one after the other: what a list adds does not
/// depend on what follows it.
pub proof fn lemma_assembled_concat(first: Seq<Piece>, second: Seq<Piece>, state: JoinState)
    ensures
        assembled_from(first + second, state) == assembled_from(first, state) + assembled_from(
            second,
            state_after(first, state),
        ),
        state_after(first + second, state) == state_after(second, state_after(first, state)),
    decreases first.len(),
{
    if first.len() == 0 {
        assert(first + second =~= second);
        assert(Seq::<char>::empty() + assembled_from(second, state) =~= assembled_from(
            second,
            state,
        ));
    } else {
        let next = piece_state(first[0], state);
        assert((first + second).drop_first() =~= first.drop_first() + second);
        assert((first + second)[0] == first[0]);
        lemma_assembled_concat(first.drop_first(), second, next);
        assert(piece_output(first[0], state) + (assembled_from(first.drop_first(), next)
            + assembled_from(second, state_after(first.drop_first(), next))) =~= piece_output(
            first[0],
            state,
        ) + assembled_from(first.drop_first(), next) + assembled_from(
            second,
            state_after(first.drop_first(), next),
        ));
    }
}

/// What a single piece adds, and what is remembered after it.
proof fn lemma_single_piece(piece: Piece, state: JoinState)
    ensures
        assembled_from(seq![piece], state) == piece_output(piece, state),
        state_after(seq![piece], state) == piece_state(piece, state),
{
    let single = seq![piece];
    let rest = single.drop_first();
    let next = piece_state(piece, state);
    assert(single[0] == piece);
    assert(rest.len() == 0);
    assert(state_after(rest, next) == next);
    assert(assembled_from(rest, next) == Seq::<char>::empty());
    assert(piece_output(piece, state) + Seq::<char>::empty() =~= piece_output(piece, state));
}

/// Whether every piece is a separator that is not shown always.
pub open spec fn all_surrounded(pieces: Seq<Piece>) -> bool {
    forall|i: int|
        0 <= i < pieces.len() ==> (#[trigger] pieces[i]) matches Piece::Separator {
            always: false,
            ..
        }
}

/// Whether no piece is a value that shows something.
pub open spec fn none_shown(pieces: Seq<Piece>) -> bool {
    forall|i: int| 0 <= i < pieces.len() ==> !is_shown(#[trigger] pieces[i])
}

/// A run of separators adds nothing by itself, and leaves its last one
/// waiting.
proof fn lemma_separator_run(run: Seq<Piece>, state: JoinState)
    requires
        run.len() >= 1,
        all_surrounded(run),
    ensures
        assembled_from(run, state) == Seq::<char>::empty(),
        state_after(run, state) == state_after(seq![run.last()], state),
    decreases run.len(),
{
    let next = piece_state(run[0], state);
    assert(run[0] matches Piece::Separator { always: false, .. });
    if run.len() == 1 {
        assert(run =~= seq![run.last()]);
        assert(assembled_from(run.drop_first(), next) == Seq::<char>::empty());
        assert(Seq::<char>::empty() + Seq::<char>::empty() =~= Seq::<char>::empty());
    } else {
        let rest = run.drop_first();
        assert forall|i: int| 0 <= i < rest.len() implies (#[trigger] rest[i]) matches Piece::Separator {
            always: false,
            ..
        } by {
            assert(rest[i] == run[i + 1]);
        }
        assert(rest.last() == run.last());
        lemma_separator_run(rest, next);
        assert(Seq::<char>::empty() + Seq::<char>::empty() =~= Seq::<char>::empty());
        lemma_single_piece(run.last(), next);
        lemma_single_piece(run.last(), state);
    }
}

/// Where no value is shown, what the pieces add does not depend on what is
/// remembered, and whether a value was shown before stays as it was.
proof fn lemma_none_shown(pieces: Seq<Piece>, one: JoinState, other: JoinState)
    requires
        none_shown(pieces),
    ensures
        assembled_from(pieces, one) == assembled_from(pieces, other),
        state_after(pieces, one).prev_was_set == one.prev_was_set,
    decreases pieces.len(),
{
    if pieces.len() > 0 {
        let rest = pieces.drop_first();
        assert(!is_shown(pieces[0]));
        assert forall|i: int| 0 <= i < rest.len() implies !is_shown(#[trigger] rest[i]) by {
            assert(rest[i] == pieces[i + 1]);
        }
        lemma_none_shown(rest, piece_state(pieces[0], one), piece_state(pieces[0], other));
    }
}

/// Before the first value is shown, a separator that waits changes
/// nothing of what is added.
proof fn lemma_unset_ignores_pending(pieces: Seq<Piece>, one: JoinState, other: JoinState)
    requires
        !one.prev_was_set,
        !other.prev_was_set,
    ensures
        assembled_from(pieces, one) == assembled_from(pieces, other),
    decreases pieces.len(),
{
    if pieces.len() > 0 {
        let rest = pieces.drop_first();
        if is_shown(pieces[0]) {
            assert(piece_state(pieces[0], one) == piece_state(pieces[0], other));
        } else {
            lemma_unset_ignores_pending(
                rest,
                piece_state(pieces[0], one),
                piece_state(pieces[0], other),
            );
        }
    }
}

/// Separators that stand together count as the last of them alone: a run
/// of separators, none of them shown always, gives the prompt that its
/// last separator would give in its place. So between two values that are
/// shown at most one separator is shown.
pub proof fn lemma_consecutive_separators(before: Seq<Piece>, run: Seq<Piece>, after: Seq<Piece>)
    requires
        run.len() >= 1,
        all_surrounded(run),
    ensures
        assembled(before + run + after) == assembled(before + seq![run.last()] + after),
{
    let start = initial_state();
    let single = seq![run.last()];
    let middle = state_after(before, start);
    assert(all_surrounded(single));
    assert(single.last() == run.last());
    lemma_separator_run(run, middle);
    lemma_separator_run(single, middle);
    lemma_assembled_concat(before, run, start);
    lemma_assembled_concat(before + run, after, start);
    lemma_assembled_concat(before, single, start);
    lemma_assembled_concat(before + single, after, start);
}

/// A separator before which no value is shown is not shown: leaving it
/// out gives the same prompt.
pub proof fn lemma_leading_separator(before: Seq<Piece>, text: Seq<char>, after: Seq<Piece>)
    requires
        none_shown(before),
    ensures
        assembled(before + seq![surrounded(text)] + after) == assembled(before + after),
{
    let start = initial_state();
    let single = seq![surrounded(text)];
    let middle = state_after(before, start);
    assert(all_surrounded(single));
    lemma_none_shown(before, start, start);
    lemma_separator_run(single, middle);
    lemma_single_piece(surrounded(text), middle);
    lemma_assembled_concat(before, single, start);
    lemma_assembled_concat(before + single, after, start);
    lemma_assembled_concat(before, after, start);
    lemma_unset_ignores_pending(after, state_after(single, middle), middle);
    assert(assembled_from(before, start) + Seq::<char>::empty() =~= assembled_from(before, start));
}

/// A separator after which no value is shown is not shown: leaving it
/// out gives the same prompt.
pub proof fn lemma_trailing_separator(before: Seq<Piece>, text: Seq<char>, after: Seq<Piece>)
    requires
        none_shown(after),
    ensures
        assembled(before + seq![surrounded(text)] + after) == assembled(before + after),
{
    let start = initial_state();
    let single = seq![surrounded(text)];
    let middle = state_after(before, start);
    assert(all_surrounded(single));
    lemma_separator_run(single, middle);
    lemma_assembled_concat(before, single, start);
    lemma_assembled_concat(before + single, after, start);
    lemma_assembled_concat(before, after, start);
    lemma_none_shown(after, state_after(single, middle), middle);
    assert(assembled_from(before, start) + Seq::<char>::empty() =~= assembled_from(before, start));
}

/// Whether any of the pieces is a value that shows something.
pub open spec fn some_shown(pieces: Seq<Piece>) -> bool
    decreases pieces.len(),
{
    if pieces.len() == 0 {
        false
    } else {
        is_shown(pieces.last()) || some_shown(pieces.drop_last())
    }
}

/// The separator that waits after the pieces: the last separator, not
/// shown always, that was declared after the last value that is shown.
pub open spec fn waiting_separator(pieces: Seq<Piece>) -> Option<Seq<char>>
    decreases pieces.len(),
{
    if pieces.len() == 0 {
        None
    } else {
        match pieces.last() {
            Piece::Separator { text, always } => if always {
                waiting_separator(pieces.drop_last())
            } else {
                Some(text)
            },
            Piece::Value(None) => waiting_separator(pieces.drop_last()),
            Piece::Value(Some(_)) => None,
        }
    }
}

/// The prompt, told from its end. Every value that is shown stands in it
/// once, in the order of declaration. Before it stands the last separator
/// declared between it and the value shown before it, where there are both;
/// so none stands before the first value shown and none after the last. A
/// separator that is shown always stands where it was declared.
pub open spec fn joined(pieces: Seq<Piece>) -> Seq<char>
    decreases pieces.len(),
{
    if pieces.len() == 0 {
        Seq::empty()
    } else {
        let before = pieces.drop_last();
        match pieces.last() {
            Piece::Separator { text, always } => if always {
                joined(before) + text
            } else {
                joined(before)
            },
            Piece::Value(None) => joined(before),
            Piece::Value(Some(text)) => if some_shown(before) && waiting_separator(before)
                is Some {
                joined(before) + waiting_separator(before)->0 + text
            } else {
                joined(before) + text
            },
        }
    }
}

/// What `assemble` builds piece by piece is the prompt as `joined` tells
/// it.
pub proof fn lemma_assembled_is_joined(pieces: Seq<Piece>)
    ensures
        assembled(pieces) == joined(pieces),
        state_after(pieces, initial_state()) == (JoinState {
            prev_was_set: some_shown(pieces),
            separator_pending: waiting_separator(pieces),
        }),
    decreases pieces.len(),
{
    if pieces.len() > 0 {
        let before = pieces.drop_last();
        let last = pieces.last();
        let state = state_after(before, initial_state());
        lemma_assembled_is_joined(before);
        lemma_assembled_concat(before, seq![last], initial_state());
        lemma_single_piece(last, state);
        assert(before + seq![last] =~= pieces);
        assert(joined(before) + Seq::<char>::empty() =~= joined(before));
        match last {
            Piece::Value(Some(text)) => {
                if state.separator_pending is Some && state.prev_was_set {
                    assert(joined(before) + (state.separator_pending->0 + text) =~= joined(before)
                        + state.separator_pending->0 + text);
                }
            },
            _ => {},
        }
    }
}

/// Whether `piece` is what `entry` comes to when it is rendered for a
/// repository of which `cache` holds what was read: for a separator, its
/// text and its way of being shown; for a value, what it shows.
pub open spec fn piece_of(entry: EntryText, piece: Piece, cache: Cache) -> bool {
    match entry {
        EntryText::Separator(separator) => piece == Piece::Separator {
            text: separator_text(separator.value),
            always: separator.display == "always"@,
        },
        EntryText::Shown(descriptor) => piece matches Piece::Value(segment) && shown_for(
            descriptor,
            segment,
            cache,
        ),
    }
}

/// Whether `pieces` are what `entries` come to, one for one.
pub open spec fn pieces_of(entries: Seq<EntryText>, pieces: Seq<Piece>, cache: Cache) -> bool {
    &&& pieces.len() == entries.len()
    &&& forall|i: int| 0 <= i < entries.len() ==> piece_of(entries[i], #[trigger] pieces[i], cache)
}

/// Keeping what was read is transitive.
pub proof fn lemma_cache_kept_twice(first: Cache, second: Cache, third: Cache)
    requires
        cache_kept(first, second),
        cache_kept(second, third),
    ensures
        cache_kept(first, third),
{
}

impl Conf {
    /// Reads a configuration document. Every value that it declares is
    /// checked here, so that nothing is rendered from a configuration with
    /// a fault in it.
    pub fn new(yaml: ConfNode, display_master: DisplayMaster) -> (conf: Result<Conf, ConfigError>)
        ensures
            match conf {
                Ok(c) => conf_of(yaml) == Ok::<Seq<EntryText>, ConfigFault>(
                    entries_text(c.values@),
                ) && c.display_master == display_master,
                Err(error) => conf_of(yaml) == Err::<Seq<EntryText>, ConfigFault>(error@),
            },
    {
        match check_version(&yaml) {
            Ok(_) => {},
            Err(e) => {
                return Err(e);
            },
        }
        if yaml.is_missing("values") {
            return Err(ConfigError::MissingValues);
        }
        let nodes = match yaml.get_vec("values") {
            Some(list) => list,
            None => {
                return Err(ConfigError::ValuesNotList);
            },
        };
        let mut values: Vec<ConfValue> = Vec::new();
        let mut i: usize = 0;
        assert(entries_text(values@) =~= Seq::empty());
        while i < nodes.len()
            invariant
                i <= nodes@.len(),
                conf_of(yaml) == entries_of(nodes@),
                entries_of(nodes@.subrange(0, i as int)) == Ok::<Seq<EntryText>, ConfigFault>(
                    entries_text(values@),
                ),
            decreases nodes@.len() - i,
        {
            proof {
                assert(nodes@.subrange(0, i + 1).drop_last() =~= nodes@.subrange(0, i as int));
                assert(nodes@.subrange(0, i + 1).last() == nodes@[i as int]);
            }
            match parse_entry(&nodes[i]) {
                Ok(entry) => {
                    let ghost before = entries_text(values@);
                    values.push(entry);
                    assert(entries_text(values@) =~= before.push(entry@));
                },
                Err(error) => {
                    proof {
                        lemma_entries_fault(nodes@, i + 1);
                    }
                    return Err(error);
                },
            }
            i += 1;
        }
        assert(nodes@.subrange(0, i as int) =~= nodes@);
        Ok(Conf { values: values, display_master: display_master })
    }

    /// Renders each entry of the configuration, in the order of the
    /// entries. What is needed of the repository is read on the way.
    pub fn render_pieces(&mut self) -> (pieces: Vec<RenderedPiece>)
        ensures
            pieces_of(
                entries_text(old(self).values@),
                pieces_text(pieces@),
                final(self).display_master.backend.cache,
            ),
            final(self).values == old(self).values,
            cache_kept(
                old(self).display_master.backend.cache,
                final(self).display_master.backend.cache,
            ),
            log_grown(
                old(self).display_master.backend.debug,
                old(self).display_master.backend.log@,
                final(self).display_master.backend.log@,
            ),
    {
        let ghost entries = entries_text(self.values@);
        let mut pieces: Vec<RenderedPiece> = Vec::new();
        let mut i: usize = 0;
        while i < self.values.len()
            invariant
                i <= self.values@.len(),
                self.values == old(self).values,
                entries == entries_text(self.values@),
                pieces@.len() == i,
                forall|k: int|
                    0 <= k < i ==> piece_of(
                        entries[k],
                        #[trigger] pieces@[k]@,
                        self.display_master.backend.cache,
                    ),
                cache_kept(
                    old(self).display_master.backend.cache,
                    self.display_master.backend.cache,
                ),
                self.display_master.backend.debug == old(self).display_master.backend.debug,
                log_grown(
                    old(self).display_master.backend.debug,
                    old(self).display_master.backend.log@,
                    self.display_master.backend.log@,
                ),
            decreases self.values@.len() - i,
        {
            let ghost before = self.display_master.backend.cache;
            let ghost log_before = self.display_master.backend.log@;
            let piece = match &self.values[i] {
                ConfValue::Separator(separator) => {
                    let text = match separator.display() {
                        Some(t) => t,
                        None => String::new(),
                    };
                    RenderedPiece::Separator { text: text, always: separator.is_display_always() }
                },
                ConfValue::Shown(descriptor) => RenderedPiece::Value(
                    self.display_master.display_value(descriptor),
                ),
            };
            proof {
                let after = self.display_master.backend.cache;
                lemma_cache_kept_twice(old(self).display_master.backend.cache, before, after);
                lemma_log_grown_twice(
                    old(self).display_master.backend.debug,
                    old(self).display_master.backend.log@,
                    log_before,
                    self.display_master.backend.log@,
                );
                assert(piece_of(entries[i as int], piece@, after));
                assert forall|k: int| 0 <= k < i implies piece_of(
                    entries[k],
                    #[trigger] pieces@[k]@,
                    after,
                ) by {
                    assert(piece_of(entries[k], pieces@[k]@, before));
                    if let EntryText::Shown(descriptor) = entries[k] {
                        lemma_shown_for_kept(
                            descriptor,
                            pieces@[k]@->Value_0,
                            before,
                            after,
                        );
                    }
                }
            }
            pieces.push(piece);
            i += 1;
        }
        assert forall|k: int| 0 <= k < entries.len() implies piece_of(
            entries[k],
            #[trigger] pieces_text(pieces@)[k],
            self.display_master.backend.cache,
        ) by {
            assert(pieces_text(pieces@)[k] == pieces@[k]@);
        }
        pieces
    }

    /// Renders the prompt: what the values show for the repository, joined
    /// in the order of their declaration. A separator that is not shown
    /// always is shown only between two values that are shown, and of
    /// several that stand together only the last.
    pub fn populate_values(&mut self) -> (out: String)
        ensures
            exists|pieces: Seq<Piece>|
                pieces_of(
                    entries_text(old(self).values@),
                    pieces,
                    final(self).display_master.backend.cache,
                ) && out@ == #[trigger] assembled(pieces) && out@ == joined(pieces),
            final(self).values == old(self).values,
            cache_kept(
                old(self).display_master.backend.cache,
                final(self).display_master.backend.cache,
            ),
            log_grown(
                old(self).display_master.backend.debug,
                old(self).display_master.backend.log@,
                final(self).display_master.backend.log@,
            ),
    {
        let pieces = self.render_pieces();
        assemble(&pieces)
    }
}

/// The configuration that a text holds, or the first thing that is wrong
/// with it.
pub open spec fn configuration_of(
    documents: Option<Seq<ConfNode>>,
) -> Result<Seq<EntryText>, ConfigFault> {
    match first_document(documents) {
        Err(error) => Err(error@),
        Ok(document) => conf_of(document),
    }
}

/// Reads the configuration of a run: from `content`, the text of the
/// user's configuration, or from the default configuration where the user
/// has none.
pub fn get_configuration(
    content: Option<String>,
    display_master: DisplayMaster,
) -> (conf: Result<Conf, ConfigError>)
    ensures
        match conf {
            Ok(c) => configuration_of(
                yaml_documents(
                    match content {
                        Some(text) => text@,
                        None => DEFAULT_CONF@,
                    },
                ),
            ) == Ok::<Seq<EntryText>, ConfigFault>(entries_text(c.values@)) && c.display_master
                == display_master,
            Err(error) => configuration_of(
                yaml_documents(
                    match content {
                        Some(text) => text@,
                        None => DEFAULT_CONF@,
                    },
                ),
            ) == Err::<Seq<EntryText>, ConfigFault>(error@),
        },
{
    let parsed = match &content {
        Some(text) => parse_document(text.as_str()),
        None => parse_document(DEFAULT_CONF),
    };
    match parsed {
        Ok(document) => Conf::new(document, display_master),
        Err(e) => Err(e),
    }
}

} // verus!
