//! Locations inside a Rogue Legacy 2 installation and in the launcher's data
//! directory, and the choice of the files that describe mods.

use vstd::prelude::*;

verus! {

/// The game's executable, relative to an installation directory.
pub open spec fn exe_location(install: Seq<char>) -> Seq<char> {
    install + "/Rogue Legacy 2.exe"@
}

/// The file in which the launcher keeps the last accepted installation path.
pub open spec fn saved_path_location(local_data: Seq<char>) -> Seq<char> {
    local_data + "/com.rl2-launcher.app/path.saved"@
}

/// The directory that holds the installed mods.
pub open spec fn mods_dir_location(install: Seq<char>) -> Seq<char> {
    install + "/Rogue Legacy 2_Data/Mods"@
}

/// The mod loader's list of enabled and disabled mods.
pub open spec fn enabled_list_location(install: Seq<char>) -> Seq<char> {
    install + "/Rogue Legacy 2_Data/Mods/enabled.json"@
}

/// The engine's list of methods run when the runtime starts.
pub open spec fn runtime_init_location(install: Seq<char>) -> Seq<char> {
    install + "/Rogue Legacy 2_Data/RuntimeInitializeOnLoads.json"@
}

/// The engine's list of script assemblies.
pub open spec fn scripting_assemblies_location(install: Seq<char>) -> Seq<char> {
    install + "/Rogue Legacy 2_Data/ScriptingAssemblies.json"@
}

/// The marker whose presence shows an installation made by the Epic Games store.
pub open spec fn egstore_location(install: Seq<char>) -> Seq<char> {
    install + "/.egstore"@
}

/// Whether `s` ends with `suffix`.
pub open spec fn has_suffix(s: Seq<char>, suffix: Seq<char>) -> bool {
    suffix.len() <= s.len() && s.subrange(s.len() - suffix.len(), s.len() as int) == suffix
}

/// A directory entry describes a mod when it is no directory and its path ends in `.mod.json`.
pub open spec fn is_manifest_entry(is_dir: bool, path: Seq<char>) -> bool {
    !is_dir && has_suffix(path, ".mod.json"@)
}

pub fn exe_path(install: &str) -> (r: String)
    ensures
        r@ == exe_location(install@),
{
    install.to_owned().concat("/Rogue Legacy 2.exe")
}

pub fn saved_path_file(local_data: &str) -> (r: String)
    ensures
        r@ == saved_path_location(local_data@),
{
    local_data.to_owned().concat("/com.rl2-launcher.app/path.saved")
}

pub fn mods_dir(install: &str) -> (r: String)
    ensures
        r@ == mods_dir_location(install@),
{
    install.to_owned().concat("/Rogue Legacy 2_Data/Mods")
}

pub fn enabled_list_path(install: &str) -> (r: String)
    ensures
        r@ == enabled_list_location(install@),
{
    install.to_owned().concat("/Rogue Legacy 2_Data/Mods/enabled.json")
}

pub fn runtime_init_path(install: &str) -> (r: String)
    ensures
        r@ == runtime_init_location(install@),
{
    install.to_owned().concat("/Rogue Legacy 2_Data/RuntimeInitializeOnLoads.json")
}

pub fn scripting_assemblies_path(install: &str) -> (r: String)
    ensures
        r@ == scripting_assemblies_location(install@),
{
    install.to_owned().concat("/Rogue Legacy 2_Data/ScriptingAssemblies.json")
}

pub fn egstore_path(install: &str) -> (r: String)
    ensures
        r@ == egstore_location(install@),
{
    install.to_owned().concat("/.egstore")
}

/// Whether `s` ends with `suffix`, compared character by character.
pub fn ends_with(s: &str, suffix: &str) -> (r: bool)
    ensures
        r == has_suffix(s@, suffix@),
{
    let n = s.unicode_len();
    let m = suffix.unicode_len();
    if m > n {
        return false;
    }
    let offset = n - m;
    let mut i: usize = 0;
    while i < m
        invariant
            n == s@.len(),
            m == suffix@.len(),
            m <= n,
            offset == n - m,
            i <= m,
            forall|j: int| 0 <= j < i ==> s@[offset + j] == suffix@[j],
        decreases m - i,
    {
        if s.get_char(offset + i) != suffix.get_char(i) {
            assert(s@.subrange(offset as int, n as int)[i as int] != suffix@[i as int]);
            return false;
        }
        i = i + 1;
    }
    assert(s@.subrange(offset as int, n as int) =~= suffix@);
    true
}

/// Whether a directory entry describes a mod.
pub fn is_mod_manifest(is_dir: bool, path: &str) -> (r: bool)
    ensures
        r == is_manifest_entry(is_dir, path@),
{
    !is_dir && ends_with(path, ".mod.json")
}

/// The paths of the entries that describe mods, in the order of the entries;
/// each entry is its path and whether it is a directory.
pub open spec fn manifest_paths_of(entries: Seq<(Seq<char>, bool)>) -> Seq<Seq<char>>
    decreases entries.len(),
{
    if entries.len() == 0 {
        Seq::empty()
    } else {
        let rest = manifest_paths_of(entries.drop_last());
        if is_manifest_entry(entries.last().1, entries.last().0) {
            rest.push(entries.last().0)
        } else {
            rest
        }
    }
}

pub open spec fn entries_view(entries: Seq<(String, bool)>) -> Seq<(Seq<char>, bool)> {
    entries.map_values(|e: (String, bool)| (e.0@, e.1))
}

/// The paths of the directory entries that describe mods, in order.
pub fn manifest_files(entries: &Vec<(String, bool)>) -> (r: Vec<String>)
    ensures
        r@.map_values(|s: String| s@) == manifest_paths_of(entries_view(entries@)),
{
    let ghost all = entries_view(entries@);
    let mut r: Vec<String> = Vec::new();
    let mut i: usize = 0;
    assert(all.take(0) =~= Seq::<(Seq<char>, bool)>::empty());
    assert(r@.map_values(|s: String| s@) =~= Seq::<Seq<char>>::empty());
    while i < entries.len()
        invariant
            i <= entries.len(),
            all == entries_view(entries@),
            r@.map_values(|s: String| s@) == manifest_paths_of(all.take(i as int)),
        decreases entries.len() - i,
    {
        let ghost before = r@.map_values(|s: String| s@);
        assert(all.take(i + 1).drop_last() =~= all.take(i as int));
        assert(all.take(i + 1).last() == (entries@[i as int].0@, entries@[i as int].1));
        if is_mod_manifest(entries[i].1, entries[i].0.as_str()) {
            let p = entries[i].0.clone();
            r.push(p);
            assert(r@.map_values(|s: String| s@) =~= before.push(entries@[i as int].0@));
        }
        i = i + 1;
    }
    assert(all.take(i as int) =~= all);
    r
}

/// The description files are exactly the entries that are no directory and
/// end in `.mod.json`, each once, in the order of the entries.
pub proof fn manifest_paths_are_the_filtered_entries(entries: Seq<(Seq<char>, bool)>)
    ensures
        manifest_paths_of(entries) == entries.filter(|e: (Seq<char>, bool)| is_manifest_entry(e.1, e.0))
            .map_values(|e: (Seq<char>, bool)| e.0),
    decreases entries.len(),
{
    reveal(Seq::filter);
    let p = |e: (Seq<char>, bool)| is_manifest_entry(e.1, e.0);
    let f = |e: (Seq<char>, bool)| e.0;
    if entries.len() == 0 {
        assert(entries.filter(p).map_values(f) =~= Seq::<Seq<char>>::empty());
    } else {
        manifest_paths_are_the_filtered_entries(entries.drop_last());
        let sub = entries.drop_last().filter(p);
        if p(entries.last()) {
            assert(sub.push(entries.last()).map_values(f) =~= sub.map_values(f).push(entries.last().0));
        }
    }
}

} // verus!
