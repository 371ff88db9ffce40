//! Colouring of a piece of text for the shell that shows the prompt.

use vstd::prelude::*;
use vstd::string::StringExecFns;
use vstd::string::StrSliceExecFns;

verus! {

/// The shell whose colour markup is written.
pub enum FormatType {
    Zsh,
    NoColor,
}

/// A piece of text and the colour it is to be shown in.
pub struct FormatEntry {
    pub text: String,
    pub color: String,
}

/// `text` in `color`, in the markup of zsh. The markup is wrapped in `%{`
/// and `%}`, so that zsh does not count it into the width of the prompt.
/// Empty text stays empty, and without a colour the text stays bare.
pub open spec fn zsh_colored(text: Seq<char>, color: Seq<char>) -> Seq<char> {
    if text.len() == 0 || color.len() == 0 {
        text
    } else {
        "%{%F{"@ + color + "}%}"@ + text + "%{%f%}"@
    }
}

/// Formats the entry for zsh.
pub fn format_for_zsh(f: FormatEntry) -> (out: String)
    ensures
        out@ == zsh_colored(f.text@, f.color@),
{
    if f.text.as_str().unicode_len() == 0 || f.color.as_str().unicode_len() == 0 {
        f.text
    } else {
        let mut out = String::from_str("%{%F{");
        out.append(f.color.as_str());
        out.append("}%}");
        out.append(f.text.as_str());
        out.append("%{%f%}");
        out
    }
}

/// Formats the entry without any colour: the text as it is.
pub fn format_without_color(f: FormatEntry) -> (out: String)
    ensures
        out@ == f.text@,
{
    f.text
}

/// Formats entries for one kind of shell.
pub struct Format {
    pub format_type: FormatType,
}

impl Format {
    /// What `format` gives for an entry with this text and colour.
    pub open spec fn formatted(&self, text: Seq<char>, color: Seq<char>) -> Seq<char> {
        match self.format_type {
            FormatType::Zsh => zsh_colored(text, color),
            FormatType::NoColor => text,
        }
    }

    /// Formats the entry for the shell of `self`.
    pub fn format(&self, f: FormatEntry) -> (out: String)
        ensures
            out@ == self.formatted(f.text@, f.color@),
    {
        match self.format_type {
            FormatType::Zsh => format_for_zsh(f),
            FormatType::NoColor => format_without_color(f),
        }
    }
}

} // verus!
