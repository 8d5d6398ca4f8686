//! The launcher's page: the installation path, the mods found there, which of
//! them are enabled, and what a press of a launch button sends.
//!
//! The page talks to the part of the launcher that touches the disk by
//! requests; each step here takes what came back and says what to ask next.

use vstd::prelude::*;
use crate::manifest::{ManifestError, ModEntry, entries_of, entry_view, mod_entries, strings_view};
use crate::selection::{ModSelection, scan_names, toggled, with_enabled};

verus! {

/// What the page asks of the part of the launcher that touches the disk.
#[derive(Debug)]
pub enum Request {
    /// Whether the path holds the game (and, where it does, to save it).
    CheckPath(String),
    /// The description files of the mods installed under the path.
    GetModList(String),
    /// The names that the mod loader's list under the path marks enabled.
    GetEnabledModsList(String),
}

/// What a press of a launch button sends.
#[derive(Debug)]
pub struct LaunchRequest {
    pub path: String,
    pub modded: bool,
    pub enabled: Vec<String>,
    pub disabled: Vec<String>,
}

/// The state of the page.
pub struct Launcher {
    rl2_path: String,
    mod_list: Vec<String>,
    selection: ModSelection,
}

impl Launcher {
    /// The installation path that the page shows.
    pub closed spec fn path_view(&self) -> Seq<char> {
        self.rl2_path@
    }

    /// The description files of the mods that the page lists.
    pub closed spec fn mods_view(&self) -> Seq<Seq<char>> {
        strings_view(self.mod_list@)
    }

    /// The enabled and the disabled mods.
    pub closed spec fn selection_view(&self) -> (Set<Seq<char>>, Set<Seq<char>>) {
        self.selection@
    }

    /// An empty page: no path, no mods, none enabled or disabled.
    pub fn new() -> (r: Self)
        ensures
            r.path_view().len() == 0,
            r.mods_view().len() == 0,
            r.selection_view() == (Set::<Seq<char>>::empty(), Set::<Seq<char>>::empty()),
    {
        Launcher { rl2_path: String::new(), mod_list: Vec::new(), selection: ModSelection::new() }
    }

    /// The path typed into the page: the mod list empties, and the path is checked.
    pub fn path_edited(&mut self, value: &str) -> (r: Request)
        ensures
            final(self).mods_view().len() == 0,
            final(self).path_view() == old(self).path_view(),
            final(self).selection_view() == old(self).selection_view(),
            r matches Request::CheckPath(p) && p@ == value@,
    {
        self.mod_list = Vec::new();
        Request::CheckPath(value.to_owned())
    }

    /// The answer to a check of the path: a path that holds the game becomes
    /// the page's path and its mods are asked for; another is left aside.
    pub fn path_checked(&mut self, value: &str, holds_game: bool) -> (r: Option<Request>)
        ensures
            holds_game ==> final(self).path_view() == value@
                && (r matches Some(Request::GetModList(p)) && p@ == value@),
            !holds_game ==> final(self).path_view() == old(self).path_view() && r is None,
            final(self).mods_view() == old(self).mods_view(),
            final(self).selection_view() == old(self).selection_view(),
    {
        if holds_game {
            self.rl2_path = value.to_owned();
            Some(Request::GetModList(value.to_owned()))
        } else {
            None
        }
    }

    /// The path saved by an earlier run, where one was read: it becomes the
    /// page's path and its mods are asked for.
    pub fn saved_path_loaded(&mut self, saved: Option<String>) -> (r: Option<Request>)
        ensures
            match saved {
                Some(p) => final(self).path_view() == p@
                    && (r matches Some(Request::GetModList(q)) && q@ == p@),
                None => final(self).path_view() == old(self).path_view() && r is None,
            },
            final(self).mods_view() == old(self).mods_view(),
            final(self).selection_view() == old(self).selection_view(),
    {
        match saved {
            Some(p) => {
                let q = p.clone();
                self.rl2_path = p;
                Some(Request::GetModList(q))
            },
            None => None,
        }
    }

    /// The description files found under `path`, where they could be had: the
    /// page lists them, registers each named mod as disabled and asks for the
    /// mod loader's list of enabled mods. An object without a `Name` member
    /// stops the registration with `MissingField`, and nothing more is asked.
    pub fn mods_listed(&mut self, path: &str, mods: Option<Vec<String>>) -> (r: Result<Option<Request>, ManifestError>)
        ensures
            final(self).path_view() == old(self).path_view(),
            match mods {
                None => r == Ok::<Option<Request>, ManifestError>(None)
                    && final(self).mods_view() == old(self).mods_view()
                    && final(self).selection_view() == old(self).selection_view(),
                Some(ms) => {
                    &&& final(self).mods_view() == strings_view(ms@)
                    &&& final(self).selection_view() == (old(self).selection_view().0,
                        old(self).selection_view().1.union(scan_names(strings_view(ms@)).0.to_set()))
                    &&& scan_names(strings_view(ms@)).1 ==> r == Err::<Option<Request>, ManifestError>(ManifestError::MissingField)
                    &&& !scan_names(strings_view(ms@)).1 ==> (r matches Ok(Some(Request::GetEnabledModsList(p))) && p@ == path@)
                },
            },
    {
        match mods {
            None => Ok(None),
            Some(ms) => {
                let registered = self.selection.register_manifests(&ms);
                self.mod_list = ms;
                match registered {
                    Ok(()) => Ok(Some(Request::GetEnabledModsList(path.to_owned()))),
                    Err(e) => Err(e),
                }
            },
        }
    }

    /// The mod loader's list of enabled mods, where it could be had: each
    /// listed mod becomes enabled and stops being disabled.
    pub fn enabled_listed(&mut self, enabled: Option<Vec<String>>)
        ensures
            final(self).path_view() == old(self).path_view(),
            final(self).mods_view() == old(self).mods_view(),
            match enabled {
                Some(names) => final(self).selection_view() == with_enabled(old(self).selection_view(), strings_view(names@)),
                None => final(self).selection_view() == old(self).selection_view(),
            },
    {
        match enabled {
            Some(names) => self.selection.apply_enabled(&names),
            None => {},
        }
    }

    /// A click on a mod of the list.
    pub fn mod_clicked(&mut self, id: &str)
        ensures
            final(self).path_view() == old(self).path_view(),
            final(self).mods_view() == old(self).mods_view(),
            final(self).selection_view() == toggled(old(self).selection_view(), id@),
    {
        self.selection.toggle(id);
    }

    /// Whether the mod's check box is ticked.
    pub fn is_enabled(&self, name: &str) -> (r: bool)
        ensures
            r == self.selection_view().0.contains(name@),
    {
        self.selection.is_enabled(name)
    }

    /// The installation path that the page shows.
    pub fn path(&self) -> (r: String)
        ensures
            r@ == self.path_view(),
    {
        self.rl2_path.clone()
    }

    /// The rows of the mod list: name, author and version of each mod whose
    /// description gives all three as strings, in the order of the files.
    pub fn rows(&self) -> (r: Result<Vec<ModEntry>, ManifestError>)
        ensures
            match r {
                Ok(es) => entries_of(self.mods_view()) == Ok::<_, ManifestError>(es@.map_values(|e: ModEntry| entry_view(e))),
                Err(e) => entries_of(self.mods_view()) == Err::<Seq<(Seq<char>, Seq<char>, Seq<char>)>, ManifestError>(e),
            },
    {
        mod_entries(&self.mod_list)
    }

    /// What a press of a launch button sends: for a modded launch the path and
    /// the enabled and disabled mods; for a vanilla launch the path and no mods.
    pub fn launch_request(&self, modded: bool) -> (r: LaunchRequest)
        ensures
            r.path@ == self.path_view(),
            r.modded == modded,
            modded ==> strings_view(r.enabled@).to_set() == self.selection_view().0
                && strings_view(r.disabled@).to_set() == self.selection_view().1
                && strings_view(r.enabled@).no_duplicates()
                && strings_view(r.disabled@).no_duplicates(),
            !modded ==> r.enabled@.len() == 0 && r.disabled@.len() == 0,
    {
        if modded {
            LaunchRequest {
                path: self.rl2_path.clone(),
                modded: true,
                enabled: self.selection.enabled_names(),
                disabled: self.selection.disabled_names(),
            }
        } else {
            LaunchRequest { path: self.rl2_path.clone(), modded: false, enabled: Vec::new(), disabled: Vec::new() }
        }
    }
}

} // verus!
