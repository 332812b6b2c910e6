//! The two named global shortcuts the user binds in their own `hyprland.conf`.
//!
//! A global shortcut is **anonymous** — the compositor never tells the client which keys trigger
//! it. That single fact is why commit-on-release has to discover the held modifiers from the
//! overlay's own keyboard focus rather than watching a configured key. The protocol objects
//! themselves are the Wayland shell's; what each shortcut is called and how it is described is
//! here.

use vstd::prelude::*;

use crate::text::push_str;

verus! {

/// Which of the two named shortcuts an event came from.
#[derive(Debug, Clone, Copy, PartialEq, Eq, Structural)]
pub enum Shortcut {
    /// `hypr-swap:switcher` — hold to browse, release to switch.
    Switcher,
    /// `hypr-swap:new-workspace` — press.
    NewWorkspace,
}

/// The `id` half of the `app_id` + `id` pair the compositor addresses.
pub open spec fn shortcut_id(s: Shortcut) -> Seq<char> {
    match s {
        Shortcut::Switcher => "switcher"@,
        Shortcut::NewWorkspace => "new-workspace"@,
    }
}

/// The key combination the documentation suggests binding.
pub open spec fn suggested_keys(s: Shortcut) -> Seq<char> {
    match s {
        Shortcut::Switcher => "ALT, TAB"@,
        Shortcut::NewWorkspace => "SUPER, N"@,
    }
}

/// What `hyprctl globalshortcuts` shows for each shortcut.
pub open spec fn description_of(s: Shortcut) -> Seq<char> {
    match s {
        Shortcut::Switcher => "Open the workspace switcher"@,
        Shortcut::NewWorkspace => "Switch to a new empty workspace"@,
    }
}

/// `hypr-swap:<id>`.
pub open spec fn qualified(s: Shortcut) -> Seq<char> {
    crate::APP_ID@ + ":"@ + shortcut_id(s)
}

impl Shortcut {
    /// Every shortcut this application registers, in registration order.
    pub const ALL: [Shortcut; 2] = [Shortcut::Switcher, Shortcut::NewWorkspace];

    /// The `id` half of the `app_id` + `id` pair the compositor addresses.
    pub fn id(self) -> (s: &'static str)
        ensures
            s@ == shortcut_id(self),
    {
        match self {
            Shortcut::Switcher => "switcher",
            Shortcut::NewWorkspace => "new-workspace",
        }
    }

    /// Shown to the user by `hyprctl globalshortcuts`.
    pub fn description(self) -> (s: &'static str)
        ensures
            s@ == description_of(self),
    {
        match self {
            Shortcut::Switcher => "Open the workspace switcher",
            Shortcut::NewWorkspace => "Switch to a new empty workspace",
        }
    }

    /// How the user triggers it, for the compositor to render.
    pub fn trigger_description(self) -> (s: &'static str)
        ensures
            s@ == match self {
                Shortcut::Switcher => "Hold to browse, release to switch"@,
                Shortcut::NewWorkspace => "Press"@,
            },
    {
        match self {
            Shortcut::Switcher => "Hold to browse, release to switch",
            Shortcut::NewWorkspace => "Press",
        }
    }

    /// How the compositor's configuration names it: `hypr-swap:switcher`.
    pub fn qualified_name(self) -> (s: String)
        ensures
            s@ == qualified(self),
    {
        let mut s = String::new();
        push_str(&mut s, crate::APP_ID);
        push_str(&mut s, ":");
        push_str(&mut s, self.id());
        s
    }

    /// The exact bind line the documentation suggests for this shortcut: a plain `bind`, never a
    /// repeating one, which would fire the shortcut continuously while held.
    pub fn suggested_bind(self) -> (s: String)
        ensures
            s@ == "bind = "@ + suggested_keys(self) + ", global, "@ + qualified(self),
    {
        let combination = match self {
            Shortcut::Switcher => "ALT, TAB",
            Shortcut::NewWorkspace => "SUPER, N",
        };
        let mut s = String::new();
        push_str(&mut s, "bind = ");
        push_str(&mut s, combination);
        push_str(&mut s, ", global, ");
        let name = self.qualified_name();
        push_str(&mut s, name.as_str());
        s
    }
}

/// Whether some registered name is `name`.
pub open spec fn registered_as(registered: Seq<Seq<char>>, name: Seq<char>) -> bool {
    exists|j: int| 0 <= j < registered.len() && registered[j] == name
}

/// The first of this application's shortcut names, in registration order, that some client has
/// already registered — which means another instance is running.
pub fn taken_shortcut(registered: &[String]) -> (r: Option<String>)
    ensures
        match r {
            Some(name) => {
                ||| (name@ == qualified(Shortcut::Switcher) && registered_as(
                    registered@.map_values(|s: String| s@),
                    qualified(Shortcut::Switcher),
                ))
                ||| (name@ == qualified(Shortcut::NewWorkspace) && !registered_as(
                    registered@.map_values(|s: String| s@),
                    qualified(Shortcut::Switcher),
                ) && registered_as(
                    registered@.map_values(|s: String| s@),
                    qualified(Shortcut::NewWorkspace),
                ))
            },
            None => !registered_as(registered@.map_values(|s: String| s@), qualified(Shortcut::Switcher))
                && !registered_as(registered@.map_values(|s: String| s@), qualified(Shortcut::NewWorkspace)),
        },
{
    let switcher = Shortcut::Switcher.qualified_name();
    if is_registered(registered, &switcher) {
        return Some(switcher);
    }
    let new_workspace = Shortcut::NewWorkspace.qualified_name();
    if is_registered(registered, &new_workspace) {
        return Some(new_workspace);
    }
    None
}

fn is_registered(registered: &[String], name: &String) -> (r: bool)
    ensures
        r == registered_as(registered@.map_values(|s: String| s@), name@),
{
    let ghost all = registered@.map_values(|s: String| s@);
    for i in 0..registered.len()
        invariant
            all == registered@.map_values(|s: String| s@),
            forall|j: int| 0 <= j < i ==> all[j] != name@,
    {
        if registered[i] == *name {
            assert(all[i as int] == name@);
            return true;
        }
    }
    false
}

} // verus!
