//! User-defined custom shortcuts (read from `custom.toml` by the
//! application).
//!
//! Example:
//!   [[shortcut]]
//!   label = "My screenshot tool"
//!   keys = "Super + Shift + M"
//!   command = "my-tool --flag"   # optional; if present the row is clickable
//!   section = "My tools"          # optional grouping (defaults to "Custom")

use vstd::prelude::*;
use vstd::string::*;

use crate::text::{split_whitespace, views, words};

verus! {

/// A shortcut or note the user added.
#[derive(Debug, Clone)]
pub struct CustomShortcut {
    pub label: String,
    pub keys: String,
    pub command: Option<String>,
    pub section: Option<String>,
}

/// The section heading of a custom shortcut.
pub open spec fn section_or_default_spec(c: CustomShortcut) -> Seq<char> {
    match c.section {
        Some(s) => s@,
        None => "Custom"@,
    }
}

/// The argv of a custom shortcut: its command split at white space, or
/// nothing when it has no command.
pub open spec fn argv_spec(c: CustomShortcut) -> Seq<Seq<char>> {
    match c.command {
        Some(cmd) => words(cmd@),
        None => seq![],
    }
}

impl CustomShortcut {
    /// The command split into argv, or empty if the row is informational.
    pub fn argv(&self) -> (r: Vec<String>)
        ensures
            views(r@) == argv_spec(*self),
    {
        match &self.command {
            Some(c) => split_whitespace(c.as_str()),
            None => {
                let v: Vec<String> = Vec::new();
                assert(views(v@) =~= Seq::<Seq<char>>::empty());
                v
            },
        }
    }

    pub fn section_or_default(&self) -> (r: &str)
        ensures
            r@ == section_or_default_spec(*self),
    {
        match &self.section {
            Some(s) => s.as_str(),
            None => "Custom",
        }
    }
}

} // verus!
