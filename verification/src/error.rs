//! What can be wrong with a configuration.

use vstd::prelude::*;
use vstd::string::StringExecFns;
use crate::constants::CURRENT_CONFIG_VERSION;

verus! {

/// A key of a value declaration that has to be there.
#[derive(Clone, Copy, Debug, PartialEq, Eq, Structural)]
pub enum Field {
    Type,
    PreFormat,
    PostFormat,
    DisplayIfUptodate,
    Values,
}

impl Field {
    /// The key as it is written in a configuration.
    pub open spec fn key(self) -> Seq<char> {
        match self {
            Field::Type => "type"@,
            Field::PreFormat => "pre_format"@,
            Field::PostFormat => "post_format"@,
            Field::DisplayIfUptodate => "display_if_uptodate"@,
            Field::Values => "values"@,
        }
    }

    /// The key as it is written in a configuration.
    pub fn name(self) -> (name: &'static str)
        ensures
            name@ == self.key(),
    {
        match self {
            Field::Type => "type",
            Field::PreFormat => "pre_format",
            Field::PostFormat => "post_format",
            Field::DisplayIfUptodate => "display_if_uptodate",
            Field::Values => "values",
        }
    }
}

/// A fault in the structure of a configuration. Any of them stops the run
/// before a value is rendered.
#[derive(Debug, PartialEq, Eq)]
pub enum ConfigError {
    /// The text is not YAML.
    Syntax,
    /// The text holds no document.
    NoDocument,
    /// The document has no `version`.
    MissingVersion,
    /// `version` is not a string.
    VersionNotText,
    /// `version` is not the version that this library reads.
    UnsupportedVersion { found: String },
    /// The document has no `values`.
    MissingValues,
    /// `values` is not a list.
    ValuesNotList,
    /// A value declaration lacks a key. `declaration` is the declaration's
    /// type, empty where the type itself is what is missing.
    MissingField { field: Field, declaration: String },
    /// The type of a value declaration is none that can be shown.
    UnknownType { found: String },
    /// The type of a value inside `remote_difference` is none of `name`,
    /// `ahead` and `behind`.
    UnknownRemoteValue { found: String },
    /// `display` of a separator is neither `always` nor `surrounded`.
    InvalidSeparatorDisplay { found: String },
    /// `remote_branch` is not of the form `<REMOTE>/<BRANCH>`.
    InvalidRemoteBranch { found: String },
}

/// A `ConfigError` with its texts as sequences of characters.
pub enum ConfigFault {
    Syntax,
    NoDocument,
    MissingVersion,
    VersionNotText,
    UnsupportedVersion { found: Seq<char> },
    MissingValues,
    ValuesNotList,
    MissingField { field: Field, declaration: Seq<char> },
    UnknownType { found: Seq<char> },
    UnknownRemoteValue { found: Seq<char> },
    InvalidSeparatorDisplay { found: Seq<char> },
    InvalidRemoteBranch { found: Seq<char> },
}

impl View for ConfigError {
    type V = ConfigFault;

    open spec fn view(&self) -> ConfigFault {
        match *self {
            ConfigError::Syntax => ConfigFault::Syntax,
            ConfigError::NoDocument => ConfigFault::NoDocument,
            ConfigError::MissingVersion => ConfigFault::MissingVersion,
            ConfigError::VersionNotText => ConfigFault::VersionNotText,
            ConfigError::UnsupportedVersion { found } => ConfigFault::UnsupportedVersion {
                found: found@,
            },
            ConfigError::MissingValues => ConfigFault::MissingValues,
            ConfigError::ValuesNotList => ConfigFault::ValuesNotList,
            ConfigError::MissingField { field, declaration } => ConfigFault::MissingField {
                field: field,
                declaration: declaration@,
            },
            ConfigError::UnknownType { found } => ConfigFault::UnknownType { found: found@ },
            ConfigError::UnknownRemoteValue { found } => ConfigFault::UnknownRemoteValue {
                found: found@,
            },
            ConfigError::InvalidSeparatorDisplay { found } => ConfigFault::InvalidSeparatorDisplay {
                found: found@,
            },
            ConfigError::InvalidRemoteBranch { found } => ConfigFault::InvalidRemoteBranch {
                found: found@,
            },
        }
    }
}

/// A result with both sides seen as their views.
pub open spec fn result_view<T: View, E: View>(result: Result<T, E>) -> Result<T::V, E::V> {
    match result {
        Ok(value) => Ok(value@),
        Err(error) => Err(error@),
    }
}

impl ConfigError {
    /// The sentence that tells a person what is wrong.
    pub open spec fn sentence(self) -> Seq<char> {
        match self {
            ConfigError::Syntax => "configuration is not valid YAML"@,
            ConfigError::NoDocument => "configuration is empty"@,
            ConfigError::MissingVersion => "'version' is missing in config file."@,
            ConfigError::VersionNotText => "'version' should be string"@,
            ConfigError::UnsupportedVersion { found } => "Config should be using version '"@
                + CURRENT_CONFIG_VERSION@ + "', instead is using '"@ + found@ + "'"@,
            ConfigError::MissingValues => "No values to display."@,
            ConfigError::ValuesNotList => "'values' should be a list"@,
            ConfigError::MissingField { field, declaration } => "missing field `"@ + field.key()
                + "` in value declaration `"@ + declaration@ + "`"@,
            ConfigError::UnknownType { found } => "Unknown value type: "@ + found@,
            ConfigError::UnknownRemoteValue { found } => "Unknown value for remote_difference: "@
                + found@,
            ConfigError::InvalidSeparatorDisplay { found } => "'display' needs to be one of 'always' or 'surrounded', not '"@
                + found@ + "'"@,
            ConfigError::InvalidRemoteBranch { found } => "`remote_branch` must be in form of `<REMOTE>/<BRANCH>`, not `"@
                + found@ + "`"@,
        }
    }

    /// The sentence that tells a person what is wrong.
    pub fn message(&self) -> (text: String)
        ensures
            text@ == self.sentence(),
    {
        match self {
            ConfigError::Syntax => String::from_str("configuration is not valid YAML"),
            ConfigError::NoDocument => String::from_str("configuration is empty"),
            ConfigError::MissingVersion => String::from_str("'version' is missing in config file."),
            ConfigError::VersionNotText => String::from_str("'version' should be string"),
            ConfigError::UnsupportedVersion { found } => {
                let mut text = String::from_str("Config should be using version '");
                text.append(CURRENT_CONFIG_VERSION);
                text.append("', instead is using '");
                text.append(found.as_str());
                text.append("'");
                text
            },
            ConfigError::MissingValues => String::from_str("No values to display."),
            ConfigError::ValuesNotList => String::from_str("'values' should be a list"),
            ConfigError::MissingField { field, declaration } => {
                let mut text = String::from_str("missing field `");
                text.append(field.name());
                text.append("` in value declaration `");
                text.append(declaration.as_str());
                text.append("`");
                text
            },
            ConfigError::UnknownType { found } => {
                let mut text = String::from_str("Unknown value type: ");
                text.append(found.as_str());
                text
            },
            ConfigError::UnknownRemoteValue { found } => {
                let mut text = String::from_str("Unknown value for remote_difference: ");
                text.append(found.as_str());
                text
            },
            ConfigError::InvalidSeparatorDisplay { found } => {
                let mut text = String::from_str(
                    "'display' needs to be one of 'always' or 'surrounded', not '",
                );
                text.append(found.as_str());
                text.append("'");
                text
            },
            ConfigError::InvalidRemoteBranch { found } => {
                let mut text = String::from_str(
                    "`remote_branch` must be in form of `<REMOTE>/<BRANCH>`, not `",
                );
                text.append(found.as_str());
                text.append("`");
                text
            },
        }
    }
}

} // verus!
