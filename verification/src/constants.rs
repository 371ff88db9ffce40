//! Names that the configuration and the command line use.

use vstd::prelude::*;
use vstd::string::StringExecFns;

verus! {

/// The type of the value that counts the files changed in the working tree.
pub const CHANGED_KEY: &'static str = "changed";

/// The type of the value that counts the untracked files.
pub const NEW_KEY: &'static str = "new";

/// The type of the value that counts the files changed in the index.
pub const STAGED_KEY: &'static str = "staged";

/// The type of the value that counts the files in conflict.
pub const CONFLICTS_KEY: &'static str = "conflicts";

/// The only version of the configuration that is read.
pub const CURRENT_CONFIG_VERSION: &'static str = "1";

/// The file name of the configuration.
pub const DEFAULT_CONFIG_NAME: &'static str = "pretty-git-prompt.yml";

/// The subcommand that writes the default configuration.
pub const CLI_DEFAULT_CONFIG_SUBC_NAME: &'static str = "create-default-config";

/// The components of the path of the default configuration, given what
/// the environment holds: under `XDG_CONFIG_HOME` where that is set, else
/// under `.config` in `HOME`, else under `/tmp`.
pub open spec fn config_path_components(
    xdg_config_home: Option<Seq<char>>,
    home: Option<Seq<char>>,
) -> Seq<Seq<char>> {
    match xdg_config_home {
        Some(dir) => seq![dir, DEFAULT_CONFIG_NAME@],
        None => match home {
            Some(dir) => seq![dir, ".config"@, DEFAULT_CONFIG_NAME@],
            None => seq!["/tmp"@, DEFAULT_CONFIG_NAME@],
        },
    }
}

/// The views of a list of strings.
pub open spec fn texts(list: Seq<String>) -> Seq<Seq<char>> {
    list.map_values(|s: String| s@)
}

/// Chooses where the default configuration lies. The result holds the
/// path's components, outermost first; all but the last make up the
/// directory that has to exist.
pub fn default_config_path_components(
    xdg_config_home: Option<String>,
    home: Option<String>,
) -> (components: Vec<String>)
    ensures
        texts(components@) == config_path_components(
            match xdg_config_home {
                Some(dir) => Some(dir@),
                None => None,
            },
            match home {
                Some(dir) => Some(dir@),
                None => None,
            },
        ),
{
    let mut components: Vec<String> = Vec::new();
    match xdg_config_home {
        Some(dir) => {
            components.push(dir);
        },
        None => match home {
            Some(dir) => {
                components.push(dir);
                components.push(String::from_str(".config"));
            },
            None => {
                components.push(String::from_str("/tmp"));
            },
        },
    }
    components.push(String::from_str(DEFAULT_CONFIG_NAME));
    assert(texts(components@) =~= config_path_components(
        match xdg_config_home {
            Some(dir) => Some(dir@),
            None => None,
        },
        match home {
            Some(dir) => Some(dir@),
            None => None,
        },
    ));
    components
}

} // verus!
