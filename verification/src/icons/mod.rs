//! Application icons: which desktop entry a window class belongs to, and so which icon it shows,
//! and which icon set the icons are drawn from.

pub mod entries;

use vstd::prelude::*;

use crate::text::{chars_of, push_str, string_of};

verus! {

/// The icon set drawn from when the configuration names none.
pub const DEFAULT_ICON_SET: &'static str = "hicolor";

/// The icon set in effect: the one the configuration names, unless that name is empty, and
/// otherwise the default set.
pub open spec fn icon_set_in_effect(configured: Option<Seq<char>>) -> Seq<char> {
    match configured {
        Some(name) => if name.len() > 0 {
            name
        } else {
            "hicolor"@
        },
        None => "hicolor"@,
    }
}

/// The icon set the icons are drawn from.
pub fn resolved_set(configured: Option<&str>) -> (set: String)
    ensures
        set@ == icon_set_in_effect(
            match configured {
                Some(name) => Some(name@),
                None => None,
            },
        ),
{
    if let Some(name) = configured {
        let chars = chars_of(name);
        if chars.len() > 0 {
            return string_of(&chars);
        }
    }
    let mut set = String::new();
    push_str(&mut set, DEFAULT_ICON_SET);
    set
}

} // verus!
