//! Compositor entities, as Hyprland reports them through `j/monitors`, `j/workspaces`,
//! `j/clients` and `j/version`.
//!
//! Everything here is a projection of compositor state; this application owns none of it. The
//! JSON shapes themselves are read at the edge of the program, which hands these values in.

use vstd::prelude::*;

use crate::text::{
    chars_of, parse_u32, parse_u32_chars, slice_of, split, split_chars, trim, trimmed,
    lemma_split_nonempty, is_digit,
};
use crate::{supported_hyprland, supported_minimum};

verus! {

/// A monitor's connector name, e.g. `eDP-1` or `HEADLESS-2`. Identity for monitors everywhere.
pub type MonitorName = String;

/// An ordinary compositor workspace.
#[derive(Debug, Clone, PartialEq, Eq)]
pub struct Workspace {
    pub id: i32,
    pub name: String,
    pub monitor: MonitorName,
    /// The compositor's count of the windows on it — what the emptiness check reads.
    pub window_count: u32,
}

impl Workspace {
    /// Special and scratchpad workspaces carry a negative id. They are excluded from the overlay
    /// and never moved between monitors. This is the single place that rule is expressed.
    pub open spec fn special(&self) -> bool {
        self.id < 0
    }

    pub fn is_special(&self) -> (r: bool)
        ensures
            r == self.special(),
    {
        self.id < 0
    }

    /// A copy with every field equal.
    pub fn duplicate(&self) -> (r: Workspace)
        ensures
            r == *self,
    {
        Workspace {
            id: self.id,
            name: self.name.clone(),
            monitor: self.monitor.clone(),
            window_count: self.window_count,
        }
    }
}

/// A connected display.
#[derive(Debug, PartialEq, Eq)]
pub struct Monitor {
    pub id: i32,
    pub name: MonitorName,
    /// Layout coordinates of the monitor's top-left corner, in pixels.
    pub position: (i32, i32),
    /// Monitor size in pixels (not logical units).
    pub size: (u32, u32),
    /// The monitor's scale factor, carried as the bit pattern of the `f32` the compositor
    /// reported. Only the renderer reads it; no decision in this library depends on it.
    pub scale_bits: u32,
    /// Every monitor has exactly one active workspace at all times.
    pub active_workspace: i32,
    /// At most one monitor is focused.
    pub focused: bool,
}

impl Monitor {
    /// A copy with every field equal.
    pub fn duplicate(&self) -> (r: Monitor)
        ensures
            r == *self,
    {
        Monitor {
            id: self.id,
            name: self.name.clone(),
            position: self.position,
            size: self.size,
            scale_bits: self.scale_bits,
            active_workspace: self.active_workspace,
            focused: self.focused,
        }
    }
}

/// An application window.
#[derive(Debug, PartialEq, Eq)]
pub struct Window {
    pub address: String,
    pub title: String,
    /// Fallback label when `title` is empty.
    pub class: String,
    pub workspace: i32,
    /// Layout coordinates, in pixels — global, so miniature geometry subtracts the monitor
    /// origin.
    pub at: (i32, i32),
    pub size: (u32, u32),
    /// Painted above tiled windows in miniatures.
    pub floating: bool,
    pub mapped: bool,
}

impl Window {
    /// The label both presentations show: the title, or the class when the title is empty.
    pub open spec fn label_view(&self) -> Seq<char> {
        if self.title@.len() == 0 {
            self.class@
        } else {
            self.title@
        }
    }

    /// A window is labelled by its title, and by its class when it has no title.
    pub proof fn law_labelled_by_title_or_else_class(w: Window)
        ensures
            w.title@.len() > 0 ==> w.label_view() == w.title@,
            w.title@.len() == 0 ==> w.label_view() == w.class@,
    {
    }

    /// Unmapped windows are excluded from both presentations.
    pub fn is_listed(&self) -> (r: bool)
        ensures
            r == self.mapped,
    {
        self.mapped
    }

    /// A window with zero width or height is skipped rather than drawn as a degenerate
    /// rectangle.
    pub fn has_area(&self) -> (r: bool)
        ensures
            r == (self.size.0 > 0 && self.size.1 > 0),
    {
        self.size.0 > 0 && self.size.1 > 0
    }

    /// The label shown in both presentations: the title, or the class when the title is empty.
    pub fn label(&self) -> (r: &str)
        ensures
            r@ == self.label_view(),
            self.title@.len() > 0 ==> r@ == self.title@,
            self.title@.len() == 0 ==> r@ == self.class@,
    {
        if self.title.as_str().is_empty() {
            self.class.as_str()
        } else {
            self.title.as_str()
        }
    }

    /// A copy with every field equal.
    pub fn duplicate(&self) -> (r: Window)
        ensures
            r == *self,
    {
        Window {
            address: self.address.clone(),
            title: self.title.clone(),
            class: self.class.clone(),
            workspace: self.workspace,
            at: self.at,
            size: self.size,
            floating: self.floating,
            mapped: self.mapped,
        }
    }
}

// --- The compositor's own version -------------------------------------------

/// Hyprland's `j/version` response, of which exactly two fields are read.
#[derive(Debug, Clone, PartialEq, Eq)]
pub struct CompositorVersion {
    /// e.g. `0.56.2`.
    pub version: String,
    /// e.g. `v0.56.2`. Absent on builds that were not made from a tag.
    pub tag: Option<String>,
}

/// How a reported version stands against the supported range.
///
/// Three outcomes rather than a boolean because the two failures are reported differently: one
/// names a version that is too old, the other names a string that could not be read at all.
#[derive(Debug, Clone, Copy, PartialEq, Eq)]
pub enum Support<'a> {
    /// At or above the minimum. There is no maximum — a newer compositor is assumed to work.
    Supported,
    TooOld { found: (u32, u32, u32), minimum: (u32, u32) },
    /// The version string is not a version this application can compare, quoted exactly.
    Unknown { found: &'a str },
}

/// Whether a character can belong to the numeric part of a version.
pub open spec fn version_char(c: char) -> bool {
    is_digit(c) || c == '.'
}

/// How many leading characters of `t` are digits and dots.
pub open spec fn version_run(t: Seq<char>) -> nat
    decreases t.len(),
{
    if t.len() > 0 && version_char(t[0]) {
        1 + version_run(t.drop_first())
    } else {
        0
    }
}

/// The numeric part of a version string: trimmed, without a leading `v`, and cut at the first
/// character that is neither a digit nor a dot.
pub open spec fn version_core(text: Seq<char>) -> Seq<char> {
    let t = trim(text);
    let t = if t.len() > 0 && t[0] == 'v' {
        t.drop_first()
    } else {
        t
    };
    t.take(version_run(t) as int)
}

/// `MAJOR.MINOR[.PATCH]` read from a version string, or `None` when it does not begin with two
/// dot-separated numbers. Whatever follows is suffix and is ignored: a fourth component, and a
/// third that is not a number (`0.56.`, `0.56.x`), which leaves the patch level at zero.
pub open spec fn version_numbers(text: Seq<char>) -> Option<(u32, u32, u32)> {
    let parts = split(version_core(text), '.');
    if parts.len() < 2 || parse_u32(parts[0]) is None || parse_u32(parts[1]) is None {
        None
    } else {
        let patch = if parts.len() >= 3 {
            match parse_u32(parts[2]) {
                Some(patch) => patch,
                None => 0,
            }
        } else {
            0
        };
        Some((parse_u32(parts[0])->0, parse_u32(parts[1])->0, patch))
    }
}

/// Whether `found` is at or above `minimum`, comparing `MAJOR.MINOR` only.
pub open spec fn at_least(found: (u32, u32, u32), minimum: (u32, u32)) -> bool {
    found.0 > minimum.0 || (found.0 == minimum.0 && found.1 >= minimum.1)
}

impl CompositorVersion {
    /// `MAJOR.MINOR[.PATCH]`, with an optional `v` prefix and any trailing suffix ignored.
    ///
    /// Total: `None` for anything that does not begin with two dot-separated numbers, which is
    /// what makes the "could not be read" branch a decision rather than a guess. A third part
    /// that is not a number is suffix like any other, and leaves the patch level at zero.
    pub fn parse(text: &str) -> (r: Option<(u32, u32, u32)>)
        ensures
            r == version_numbers(text@),
    {
        let t = trimmed(&chars_of(text));
        let from: usize = if t.len() > 0 && t[0] == 'v' {
            1
        } else {
            0
        };
        let ghost stripped = if t@.len() > 0 && t@[0] == 'v' {
            t@.drop_first()
        } else {
            t@
        };
        assert(t@.skip(from as int) == stripped);
        let mut end = from;
        assert(stripped.skip(0) == stripped);
        while end < t.len() && (('0' <= t[end] && t[end] <= '9') || t[end] == '.')
            invariant
                from <= end <= t.len(),
                stripped == t@.skip(from as int),
                version_run(stripped) == (end - from) + version_run(stripped.skip(end - from)),
            decreases t.len() - end,
        {
            assert(stripped.skip(end - from).drop_first() == stripped.skip(end - from + 1));
            end += 1;
        }
        assert(version_run(stripped.skip(end - from)) == 0);
        let core = slice_of(&t, from, end);
        assert(core@ == stripped.take(version_run(stripped) as int));
        let parts = split_chars(&core, '.');
        proof {
            lemma_split_nonempty(core@, '.');
            assert(parts@[0]@ == split(core@, '.')[0]);
        }
        if parts.len() < 2 {
            return None;
        }
        assert(parts@[1]@ == split(core@, '.')[1]);
        let major = match parse_u32_chars(&parts[0]) {
            Some(major) => major,
            None => return None,
        };
        let minor = match parse_u32_chars(&parts[1]) {
            Some(minor) => minor,
            None => return None,
        };
        if parts.len() >= 3 {
            assert(parts@[2]@ == split(core@, '.')[2]);
            match parse_u32_chars(&parts[2]) {
                Some(patch) => Some((major, minor, patch)),
                None => Some((major, minor, 0)),
            }
        } else {
            Some((major, minor, 0))
        }
    }

    /// Whether this compositor is inside the supported range. The patch level is parsed but not
    /// compared: the range is a `MAJOR.MINOR` minimum.
    pub fn supported(&self) -> (r: Support<'_>)
        ensures
            ({
                let minimum = supported_minimum();
                match version_numbers(self.version@) {
                    None => r matches Support::Unknown { found } && found@ == self.version@,
                    Some(found) => if at_least(found, minimum) {
                        r == Support::Supported
                    } else {
                        r == (Support::TooOld { found, minimum })
                    },
                }
            }),
    {
        let minimum = supported_hyprland().minimum;
        match Self::parse(self.version.as_str()) {
            None => Support::Unknown { found: self.version.as_str() },
            Some(found) => {
                if found.0 > minimum.0 || (found.0 == minimum.0 && found.1 >= minimum.1) {
                    Support::Supported
                } else {
                    Support::TooOld { found, minimum }
                }
            },
        }
    }
}


/// A window size as this application holds it, from the signed size the compositor reports: a
/// negative dimension is nonsense and would only produce a degenerate rectangle, so it collapses
/// to zero, which [`Window::has_area`] then rejects.
pub fn size_from_reported(width: i32, height: i32) -> (r: (u32, u32))
    ensures
        r.0 == if width < 0 {
            0
        } else {
            width as u32
        },
        r.1 == if height < 0 {
            0
        } else {
            height as u32
        },
{
    let w: u32 = if width < 0 {
        0
    } else {
        width as u32
    };
    let h: u32 = if height < 0 {
        0
    } else {
        height as u32
    };
    (w, h)
}

} // verus!
