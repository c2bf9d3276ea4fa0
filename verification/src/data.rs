//! Built-in cheat-sheet data records.
//! Clickable actions have a non-empty `command`; informational rows do not.

use vstd::prelude::*;

verus! {

/// A clickable action: clicking spawns `command`.
pub struct Action {
    pub icon: &'static str,
    pub label: &'static str,
    pub keys: &'static str,
    pub command: &'static [&'static str],
}

/// A titled group of informational (label, keys) rows.
pub struct Section {
    pub title: &'static str,
    pub rows: &'static [(&'static str, &'static str)],
}

} // verus!
