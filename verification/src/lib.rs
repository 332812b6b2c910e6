//! An Alt-Tab style workspace switcher for Hyprland, with cross-monitor swapping: the decisions.
//!
//! Everything here is free of I/O. The compositor's state arrives as plain values, and what the
//! switcher decides to do about it leaves as plain values: commands to dispatch, records to
//! print, the next state of a session.

pub mod actions;
pub mod cli;
pub mod colour;
pub mod config;
pub mod daemon;
pub mod diag;
pub mod hypr;
pub mod icons;
pub mod model;
pub mod ordering;
pub mod seqs;
pub mod session;
pub mod state;
pub mod text;
pub mod theme;
pub mod ui;

use vstd::prelude::*;

use crate::text::{decimal, push_decimal, push_str};

verus! {

/// The application's own name: the global-shortcut `app_id`, the layer-shell namespace and the
/// notification application name.
pub const APP_ID: &'static str = "hypr-swap";

/// A supported compositor range: a minimum `MAJOR.MINOR`, open above.
///
/// There is no maximum field because there is no maximum — a newer compositor is assumed to
/// work until it does not.
#[derive(Debug, Clone, Copy, PartialEq, Eq)]
pub struct SupportedRange {
    pub minimum: (u32, u32),
}

impl SupportedRange {
    /// The range as the documentation and the diagnostic word it: `>= MAJOR.MINOR`.
    pub open spec fn wording(&self) -> Seq<char> {
        seq!['>', '=', ' '] + decimal(self.minimum.0 as nat) + seq!['.'] + decimal(
            self.minimum.1 as nat,
        )
    }

    /// The exact wording, e.g. `>= 0.55`.
    pub fn to_string(&self) -> (s: String)
        ensures
            s@ == self.wording(),
    {
        let mut s = String::new();
        s.push('>');
        s.push('=');
        s.push(' ');
        push_decimal(&mut s, self.minimum.0 as u64);
        s.push('.');
        push_decimal(&mut s, self.minimum.1 as u64);
        s
    }
}

/// The compositor versions this release supports, and the only definition of them.
pub open spec fn supported_minimum() -> (u32, u32) {
    (0, 55)
}

/// The supported range.
pub fn supported_hyprland() -> (r: SupportedRange)
    ensures
        r.minimum == supported_minimum(),
{
    SupportedRange { minimum: (0, 55) }
}


/// The version string the program reports: the package version alone when the build carries no
/// git description, an empty one, or exactly the release tag for this version (`v` and the
/// package version); otherwise the package version, `+` and the description.
pub open spec fn composed_version(package: Seq<char>, describe: Option<Seq<char>>) -> Seq<char> {
    let d = match describe {
        Some(d) => d,
        None => Seq::empty(),
    };
    if d.len() == 0 || (d[0] == 'v' && d.drop_first() == package) {
        package
    } else {
        package + seq!['+'] + d
    }
}

/// Compose the reported version from the package version and whatever git said about the build.
pub fn compose_version(package: &str, describe: Option<&str>) -> (v: String)
    ensures
        v@ == composed_version(
            package@,
            match describe {
                Some(d) => Some(d@),
                None => None,
            },
        ),
{
    let package_chars = crate::text::chars_of(package);
    let describe_chars = match describe {
        Some(d) => crate::text::chars_of(d),
        None => Vec::new(),
    };
    let release = describe_chars.len() > 0 && describe_chars[0] == 'v' && {
        let rest = crate::text::slice_of(&describe_chars, 1, describe_chars.len());
        assert(rest@ == describe_chars@.drop_first());
        crate::text::same_chars(&rest, &package_chars)
    };
    if describe_chars.len() == 0 || release {
        crate::text::string_of(&package_chars)
    } else {
        let mut v = crate::text::string_of(&package_chars);
        v.push('+');
        crate::text::push_chars(&mut v, &describe_chars);
        v
    }
}

} // verus!
