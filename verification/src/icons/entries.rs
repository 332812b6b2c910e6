//! The desktop-entry index, and the rule that decides which entry owns a window class.
//!
//! Only four keys are read per entry — `Icon`, `StartupWMClass`, `Name` and `NoDisplay` — so this
//! is a minimal INI reader. The matching ladder is five ordered steps, expressed as a pure
//! function over the parsed index. Reading the `applications` directories is the program's edge,
//! which hands each root's files in as `(id, contents)` pairs.

use vstd::prelude::*;

use crate::text::{
    begins_with, chars_of, eq_ignore_ascii_case, is_literal, lemma_split_nonempty,
    same_ignoring_ascii_case, split, split_chars, split_once, split_once_chars, string_of, trim,
    trimmed, views_of,
};

verus! {

/// The four keys of one desktop entry, plus the id its filename gives it.
///
/// Everything else in the file is dropped at parse time rather than carried and ignored.
#[derive(Debug, Clone, PartialEq, Eq)]
pub struct DesktopEntry {
    /// The basename without `.desktop` — `org.gnome.Nautilus` for `org.gnome.Nautilus.desktop`.
    pub id: String,
    /// The `Icon` key: a bare name to look up in the icon set, or an absolute path.
    pub icon: String,
    /// The toplevel class this entry claims, if it claims one.
    pub startup_wm_class: Option<String>,
    /// The unlocalised `Name`. Localised variants (`Name[de]`) are deliberately not read: the
    /// class a compositor reports is not localised either.
    pub name: Option<String>,
    /// `NoDisplay=true`, which ranks the entry behind every visible one.
    pub no_display: bool,
}

/// An optional text read as its characters.
pub open spec fn opt_text(s: Option<String>) -> Option<Seq<char>> {
    match s {
        Some(s) => Some(s@),
        None => None,
    }
}

/// What has been read of an entry's file so far.
pub struct Reading {
    pub icon: Seq<char>,
    pub startup_wm_class: Option<Seq<char>>,
    pub name: Option<Seq<char>>,
    pub no_display: bool,
    /// Inside the `[Desktop Entry]` group.
    pub inside: bool,
    /// Past the end of that group: nothing later is read.
    pub finished: bool,
}

/// Nothing read yet.
pub open spec fn unread() -> Reading {
    Reading {
        icon: Seq::empty(),
        startup_wm_class: None,
        name: None,
        no_display: false,
        inside: false,
        finished: false,
    }
}

/// Whether a trimmed line is a group header.
pub open spec fn is_header(line: Seq<char>) -> bool {
    line.len() > 0 && line[0] == '['
}

/// Whether a trimmed line is a comment.
pub open spec fn is_comment(line: Seq<char>) -> bool {
    line.len() > 0 && line[0] == '#'
}

/// What one key sets, given its (trimmed) value.
pub open spec fn read_key(r: Reading, key: Seq<char>, value: Seq<char>) -> Reading {
    if key == "Icon"@ {
        Reading { icon: value, ..r }
    } else if key == "StartupWMClass"@ {
        Reading { startup_wm_class: Some(value), ..r }
    } else if key == "Name"@ {
        Reading { name: Some(value), ..r }
    } else if key == "NoDisplay"@ {
        Reading { no_display: same_ignoring_ascii_case(value, "true"@), ..r }
    } else {
        r
    }
}

/// One trimmed line read. The desktop-entry format has no nesting: the group runs until the next
/// header, so the first header after ours ends the part that is read.
pub open spec fn read_line(r: Reading, line: Seq<char>) -> Reading {
    if r.finished {
        r
    } else if is_header(line) {
        if r.inside {
            Reading { finished: true, ..r }
        } else {
            Reading { inside: line == "[Desktop Entry]"@, ..r }
        }
    } else if !r.inside || is_comment(line) {
        r
    } else {
        match split_once(line, seq!['=']) {
            Some((key, value)) => read_key(r, trim(key), trim(value)),
            None => r,
        }
    }
}

/// The lines read in order, each trimmed first.
pub open spec fn read_lines(lines: Seq<Seq<char>>) -> Reading
    decreases lines.len(),
{
    if lines.len() == 0 {
        unread()
    } else {
        read_line(read_lines(lines.drop_last()), trim(lines.last()))
    }
}

/// What a file's text comes to. Its lines are its `\n`-separated pieces; a `\r` before the `\n`
/// and a missing or present final newline make no difference once each line is trimmed.
pub open spec fn reading_of(text: Seq<char>) -> Reading {
    read_lines(split(text, '\n'))
}

/// Whether an entry holds exactly what a reading found, under `id`.
pub open spec fn holds_reading(e: DesktopEntry, id: Seq<char>, r: Reading) -> bool {
    &&& e.id@ == id
    &&& e.icon@ == r.icon
    &&& opt_text(e.startup_wm_class) == r.startup_wm_class
    &&& opt_text(e.name) == r.name
    &&& e.no_display == r.no_display
}

/// The text after the last `.` of an id, or the whole id when it has none — the part a
/// reverse-DNS id shares with the class the compositor reports: `org.gnome.Nautilus` ←
/// `nautilus`.
pub open spec fn last_component(id: Seq<char>) -> Seq<char> {
    split(id, '.').last()
}

/// Which step of the ladder an entry answers `class` on, or `None` for no match at all.
pub open spec fn ladder_step(e: DesktopEntry, class: Seq<char>) -> Option<int> {
    if opt_text(e.startup_wm_class) == Some(class) {
        Some(1)
    } else if e.startup_wm_class is Some && same_ignoring_ascii_case(
        e.startup_wm_class->Some_0@,
        class,
    ) {
        Some(2)
    } else if same_ignoring_ascii_case(e.id@, class) {
        Some(3)
    } else if same_ignoring_ascii_case(last_component(e.id@), class) {
        Some(4)
    } else if e.name is Some && same_ignoring_ascii_case(e.name->Some_0@, class) {
        Some(5)
    } else {
        None
    }
}

impl DesktopEntry {
    /// Read one entry's four keys out of its file contents.
    ///
    /// `None` when the file carries no `Icon` (or an empty one): an entry that names no icon can
    /// never be the answer to "which icon belongs to this window", so letting it into the index
    /// would only let it shadow an entry that could have answered.
    pub fn parse(id: &str, text: &str) -> (r: Option<Self>)
        ensures
            match r {
                Some(e) => reading_of(text@).icon.len() > 0 && holds_reading(e, id@, reading_of(text@)),
                None => reading_of(text@).icon.len() == 0,
            },
    {
        let lines = split_chars(&chars_of(text), '\n');
        let ghost all = views_of(lines@);
        let mut icon: Vec<char> = Vec::new();
        let mut startup_wm_class: Option<Vec<char>> = None;
        let mut name: Option<Vec<char>> = None;
        let mut no_display = false;
        let mut inside = false;
        let mut finished = false;
        let equals = vec!['='];
        assert(all.take(0) =~= Seq::<Seq<char>>::empty());
        for i in 0..lines.len()
            invariant
                all == views_of(lines@),
                all == split(text@, '\n'),
                equals@ == seq!['='],
                read_lines(all.take(i as int)) == (Reading {
                    icon: icon@,
                    startup_wm_class: match startup_wm_class {
                        Some(c) => Some(c@),
                        None => None,
                    },
                    name: match name {
                        Some(n) => Some(n@),
                        None => None,
                    },
                    no_display,
                    inside,
                    finished,
                }),
        {
            let line = trimmed(&lines[i]);
            proof {
                let t = all.take(i + 1);
                assert(t.drop_last() =~= all.take(i as int));
                assert(t.last() == all[i as int]);
            }
            if finished {
            } else if line.len() > 0 && line[0] == '[' {
                if inside {
                    finished = true;
                } else {
                    inside = is_literal(&line, "[Desktop Entry]");
                }
            } else if !inside || (line.len() > 0 && line[0] == '#') {
            } else {
                match split_once_chars(&line, &equals) {
                    Some((key, value)) => {
                        let key = trimmed(&key);
                        let value = trimmed(&value);
                        if is_literal(&key, "Icon") {
                            icon = value;
                        } else if is_literal(&key, "StartupWMClass") {
                            startup_wm_class = Some(value);
                        } else if is_literal(&key, "Name") {
                            name = Some(value);
                        } else if is_literal(&key, "NoDisplay") {
                            let truth = vec!['t', 'r', 'u', 'e'];
                            proof {
                                reveal_strlit("true");
                            }
                            assert(truth@ == "true"@);
                            no_display = eq_ignore_ascii_case(&value, &truth);
                        }
                    },
                    None => {},
                }
            }
        }
        assert(all.take(lines.len() as int) =~= all);
        if icon.len() == 0 {
            return None;
        }
        let entry = DesktopEntry {
            id: string_of(&chars_of(id)),
            icon: string_of(&icon),
            startup_wm_class: match startup_wm_class {
                Some(c) => Some(string_of(&c)),
                None => None,
            },
            name: match name {
                Some(n) => Some(string_of(&n)),
                None => None,
            },
            no_display,
        };
        Some(entry)
    }

    /// Which step of the ladder this entry answers `class` on, or `None` for no match at all.
    ///
    /// Kept as a number rather than an early return so the caller can rank a whole index in one
    /// pass and apply the `NoDisplay` rule across it.
    pub fn step_for(&self, class: &str) -> (r: Option<u8>)
        ensures
            match r {
                Some(s) => ladder_step(*self, class@) == Some(s as int),
                None => ladder_step(*self, class@) is None,
            },
    {
        let wanted = chars_of(class);
        if let Some(claimed) = &self.startup_wm_class {
            let claimed = chars_of(claimed.as_str());
            if crate::text::same_chars(&claimed, &wanted) {
                return Some(1);
            }
            if eq_ignore_ascii_case(&claimed, &wanted) {
                return Some(2);
            }
        }
        let id = chars_of(self.id.as_str());
        if eq_ignore_ascii_case(&id, &wanted) {
            return Some(3);
        }
        let components = split_chars(&id, '.');
        proof {
            lemma_split_nonempty(id@, '.');
        }
        let last = &components[components.len() - 1];
        assert(last@ == last_component(self.id@));
        if eq_ignore_ascii_case(last, &wanted) {
            return Some(4);
        }
        if let Some(name) = &self.name {
            if eq_ignore_ascii_case(&chars_of(name.as_str()), &wanted) {
                return Some(5);
            }
        }
        None
    }
}

/// Where an entry stands for `class`: visible entries before hidden ones, then the lower ladder
/// step — the pair ordered lexicographically, which is the order of `6 * hidden + step` since a
/// step is at most five.
pub open spec fn standing(e: DesktopEntry, class: Seq<char>) -> Option<int> {
    match ladder_step(e, class) {
        Some(step) => Some(if e.no_display {
            6 + step
        } else {
            step
        }),
        None => None,
    }
}

/// Whether entry `i` is the one that answers `class`: it matches, every earlier entry stands
/// strictly behind it or does not match, and no later entry stands ahead of it.
pub open spec fn answers(es: Seq<DesktopEntry>, class: Seq<char>, i: int) -> bool {
    &&& 0 <= i < es.len()
    &&& standing(es[i], class) is Some
    &&& forall|j: int|
        0 <= j < i && #[trigger] standing(es[j], class) is Some ==> standing(es[j], class)->Some_0
            > standing(es[i], class)->Some_0
    &&& forall|j: int|
        i < j < es.len() && #[trigger] standing(es[j], class) is Some ==> standing(es[j], class)->Some_0
            >= standing(es[i], class)->Some_0
}

/// Every desktop entry the search path holds, indexed once at start-up.
#[derive(Debug, Clone, PartialEq, Eq)]
pub struct Index {
    entries: Vec<DesktopEntry>,
}

impl View for Index {
    type V = Seq<DesktopEntry>;

    closed spec fn view(&self) -> Seq<DesktopEntry> {
        self.entries@
    }
}

impl Default for Index {
    fn default() -> (index: Self)
        ensures
            index@ == Seq::<DesktopEntry>::empty(),
    {
        Index { entries: Vec::new() }
    }
}

/// A listing's files read as their texts.
pub open spec fn file_texts(files: Seq<(String, String)>) -> Seq<(Seq<char>, Seq<char>)> {
    files.map_values(|f: (String, String)| (f.0@, f.1@))
}

/// Whether an id is among those already indexed.
pub open spec fn already_indexed(found: Seq<(Seq<char>, Reading)>, id: Seq<char>) -> bool {
    exists|j: int| 0 <= j < found.len() && #[trigger] found[j].0 == id
}

/// The `(id, reading)` of every file that makes it into the index, in search order: a file whose
/// id an earlier file already gave the index is shadowed, and a file that names no icon is not
/// indexed (and so shadows nothing).
pub open spec fn indexed(files: Seq<(Seq<char>, Seq<char>)>) -> Seq<(Seq<char>, Reading)>
    decreases files.len(),
{
    if files.len() == 0 {
        Seq::empty()
    } else {
        let found = indexed(files.drop_last());
        let (id, text) = files.last();
        if already_indexed(found, id) || reading_of(text).icon.len() == 0 {
            found
        } else {
            found.push((id, reading_of(text)))
        }
    }
}

/// Whether the entries hold exactly what was indexed.
pub open spec fn holds_index(es: Seq<DesktopEntry>, found: Seq<(Seq<char>, Reading)>) -> bool {
    &&& es.len() == found.len()
    &&& forall|i: int| 0 <= i < es.len() ==> #[trigger] holds_reading(es[i], found[i].0, found[i].1)
}

impl Index {
    /// Build an index straight from entries. The order given is the order ties are broken in.
    pub fn new(entries: Vec<DesktopEntry>) -> (index: Self)
        ensures
            index@ == entries@,
    {
        Index { entries }
    }

    /// Index the desktop files of every search root, given in search order: `$XDG_DATA_HOME`'s
    /// files, then each `$XDG_DATA_DIRS` entry's, each root's sorted by filename so the index is
    /// the same on every run. An id found in an earlier root wins, which is the freedesktop
    /// precedence rule: a user's own override shadows the packaged entry of the same name rather
    /// than competing with it.
    pub fn scan(files: &[(String, String)]) -> (index: Self)
        ensures
            holds_index(index@, indexed(file_texts(files@))),
    {
        let ghost all = file_texts(files@);
        let mut entries: Vec<DesktopEntry> = Vec::new();
        assert(all.take(0) =~= Seq::<(Seq<char>, Seq<char>)>::empty());
        for i in 0..files.len()
            invariant
                all == file_texts(files@),
                holds_index(entries@, indexed(all.take(i as int))),
        {
            let ghost found = indexed(all.take(i as int));
            proof {
                let t = all.take(i + 1);
                assert(t.drop_last() =~= all.take(i as int));
                assert(t.last() == all[i as int]);
            }
            let id = &files[i].0;
            let mut seen = false;
            for j in 0..entries.len()
                invariant
                    holds_index(entries@, found),
                    seen <==> exists|k: int| 0 <= k < j && #[trigger] found[k].0 == id@,
            {
                if entries[j].id == *id {
                    assert(holds_reading(entries@[j as int], found[j as int].0, found[j as int].1));
                    seen = true;
                }
                assert(holds_reading(entries@[j as int], found[j as int].0, found[j as int].1));
            }
            assert(seen == already_indexed(found, id@));
            if !seen {
                match DesktopEntry::parse(id.as_str(), files[i].1.as_str()) {
                    Some(entry) => {
                        entries.push(entry);
                        assert forall|k: int| 0 <= k < entries@.len() implies #[trigger] holds_reading(
                            entries@[k],
                            indexed(all.take(i + 1))[k].0,
                            indexed(all.take(i + 1))[k].1,
                        ) by {
                            if k < found.len() {
                                assert(holds_reading(entries@[k], found[k].0, found[k].1));
                            }
                        }
                    },
                    None => {},
                }
            }
        }
        assert(all.take(files.len() as int) =~= all);
        Index { entries }
    }

    /// The icon name a window class resolves to, or `None` when nothing claims it.
    ///
    /// Two keys rank a candidate, in this order: visible before hidden — a hidden entry claiming
    /// the class outright still loses to a visible entry matched only by name — and then the
    /// lower ladder step. Within equal standing, the entry the search path reached first wins.
    pub fn icon_for(&self, class: &str) -> (r: Option<&str>)
        ensures
            match r {
                Some(icon) => exists|i: int| answers(self@, class@, i) && icon@ == self@[i].icon@,
                None => forall|j: int| 0 <= j < self@.len() ==> #[trigger] standing(self@[j], class@) is None,
            },
    {
        let ghost es = self@;
        let mut best: Option<(usize, u8)> = None;
        for i in 0..self.entries.len()
            invariant
                es == self.entries@,
                match best {
                    Some((b, key)) => {
                        &&& b < i
                        &&& standing(es[b as int], class@) == Some(key as int)
                        &&& key <= 11
                        &&& forall|j: int|
                            0 <= j < b && #[trigger] standing(es[j], class@) is Some
                                ==> standing(es[j], class@)->Some_0 > key
                        &&& forall|j: int|
                            b < j < i && #[trigger] standing(es[j], class@) is Some
                                ==> standing(es[j], class@)->Some_0 >= key
                    },
                    None => forall|j: int| 0 <= j < i ==> #[trigger] standing(es[j], class@) is None,
                },
        {
            match self.entries[i].step_for(class) {
                Some(step) => {
                    let key: u8 = if self.entries[i].no_display {
                        6 + step
                    } else {
                        step
                    };
                    let better = match best {
                        Some((_, current)) => key < current,
                        None => true,
                    };
                    if better {
                        best = Some((i, key));
                    }
                },
                None => {},
            }
        }
        match best {
            Some((b, _)) => {
                assert(answers(es, class@, b as int));
                Some(self.entries[b].icon.as_str())
            },
            None => None,
        }
    }

    /// How many entries were indexed — the one thing about the index worth reporting.
    pub fn len(&self) -> (n: usize)
        ensures
            n == self@.len(),
    {
        self.entries.len()
    }

    pub fn is_empty(&self) -> (r: bool)
        ensures
            r == (self@.len() == 0),
    {
        self.entries.len() == 0
    }
}

} // verus!
