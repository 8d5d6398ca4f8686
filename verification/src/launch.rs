//! What a launch does: the configuration files it writes into the installation
//! and the store through which it starts the game.

use vstd::prelude::*;
use crate::json::json_string_array;
use crate::manifest::strings_view;
use crate::paths::{
    enabled_list_location, enabled_list_path, exe_location, exe_path, runtime_init_location,
    runtime_init_path, scripting_assemblies_location, scripting_assemblies_path,
};

verus! {

/// The mod loader's list of mods (`enabled.json`): its members `Enabled` and `Disabled`.
pub struct EnabledModsJson {
    pub enabled: Vec<String>,
    pub disabled: Vec<String>,
}

/// The mods that the mod loader's list names as enabled, or none where the
/// list could not be read or parsed.
pub fn enabled_mods_or_empty(parsed: Option<EnabledModsJson>) -> (r: Vec<String>)
    ensures
        match parsed {
            Some(j) => r@ == j.enabled@,
            None => r@.len() == 0,
        },
{
    match parsed {
        Some(j) => j.enabled,
        None => Vec::new(),
    }
}

/// Calls `serde_json::to_string` on a vector of strings. The serializer writes
/// into a `Vec<u8>` and strings serialize without error, so the call succeeds;
/// the contract claims that, and that the text is the compact JSON array of
/// the strings, escaped as `serde_json`'s escape table does
/// (`json_string_array`).
#[verifier::external_body]
fn json_array_text(items: &Vec<String>) -> (r: Result<String, serde_json::Error>)
    ensures
        r is Ok,
        match r {
            Ok(t) => t@ == json_string_array(strings_view(items@)),
            Err(_) => true,
        },
{
    serde_json::to_string(items)
}

/// The text of the mod loader's list, in the compact form in which
/// `serde_json` writes a struct with the members `Enabled` and `Disabled`.
pub open spec fn enabled_list_text(enabled: Seq<Seq<char>>, disabled: Seq<Seq<char>>) -> Seq<char> {
    "{\"Enabled\":"@ + json_string_array(enabled) + ",\"Disabled\":"@ + json_string_array(disabled) + "}"@
}

/// Writes the mod loader's list of the given enabled and disabled mods.
pub fn enabled_list_json(enabled: &Vec<String>, disabled: &Vec<String>) -> (r: String)
    ensures
        r@ == enabled_list_text(strings_view(enabled@), strings_view(disabled@)),
{
    let e = json_array_text(enabled).unwrap();
    let d = json_array_text(disabled).unwrap();
    let mut out = "{\"Enabled\":".to_owned();
    out.append(e.as_str());
    out.append(",\"Disabled\":");
    out.append(d.as_str());
    out.append("}");
    out
}

/// The engine configuration files that a launch puts in place, modded or vanilla.
#[derive(Debug, Clone, Copy, PartialEq, Eq, Structural)]
pub enum ConfigTemplate {
    ModdedRuntimeInit,
    ModdedScriptingAssemblies,
    VanillaRuntimeInit,
    VanillaScriptingAssemblies,
}

/// What a launch writes into a file: one of the shipped configurations, or a text.
#[derive(Debug)]
pub enum WriteContents {
    Template(ConfigTemplate),
    Text(String),
}

/// A file that a launch writes.
#[derive(Debug)]
pub struct FileWrite {
    pub path: String,
    pub contents: WriteContents,
}

/// The contents of a planned write, as values.
pub enum PlannedContents {
    Template(ConfigTemplate),
    Text(Seq<char>),
}

pub open spec fn write_view(w: FileWrite) -> (Seq<char>, PlannedContents) {
    (w.path@, match w.contents {
        WriteContents::Template(t) => PlannedContents::Template(t),
        WriteContents::Text(s) => PlannedContents::Text(s@),
    })
}

/// The files that a launch writes, in order. A modded launch puts the modded
/// engine configuration in place and then writes the mod loader's list of enabled and disabled mods; a vanilla launch puts the
/// vanilla configuration back and leaves the mod loader's list alone.
pub open spec fn launch_plan(install: Seq<char>, modded: bool, enabled: Seq<Seq<char>>, disabled: Seq<Seq<char>>) -> Seq<(Seq<char>, PlannedContents)> {
    if modded {
        let configs = seq![
            (runtime_init_location(install), PlannedContents::Template(ConfigTemplate::ModdedRuntimeInit)),
            (scripting_assemblies_location(install), PlannedContents::Template(ConfigTemplate::ModdedScriptingAssemblies)),
        ];
        configs.push((enabled_list_location(install), PlannedContents::Text(enabled_list_text(enabled, disabled))))
    } else {
        seq![
            (runtime_init_location(install), PlannedContents::Template(ConfigTemplate::VanillaRuntimeInit)),
            (scripting_assemblies_location(install), PlannedContents::Template(ConfigTemplate::VanillaScriptingAssemblies)),
        ]
    }
}

/// The files that a launch of the installation writes, in order.
pub fn launch_writes(install: &str, modded: bool, enabled: &Vec<String>, disabled: &Vec<String>) -> (r: Vec<FileWrite>)
    ensures
        r@.map_values(|w: FileWrite| write_view(w)) == launch_plan(install@, modded, strings_view(enabled@), strings_view(disabled@)),
{
    let mut r: Vec<FileWrite> = Vec::new();
    if modded {
        r.push(FileWrite { path: runtime_init_path(install), contents: WriteContents::Template(ConfigTemplate::ModdedRuntimeInit) });
        r.push(FileWrite { path: scripting_assemblies_path(install), contents: WriteContents::Template(ConfigTemplate::ModdedScriptingAssemblies) });
        r.push(FileWrite { path: enabled_list_path(install), contents: WriteContents::Text(enabled_list_json(enabled, disabled)) });
    } else {
        r.push(FileWrite { path: runtime_init_path(install), contents: WriteContents::Template(ConfigTemplate::VanillaRuntimeInit) });
        r.push(FileWrite { path: scripting_assemblies_path(install), contents: WriteContents::Template(ConfigTemplate::VanillaScriptingAssemblies) });
    }
    assert(r@.map_values(|w: FileWrite| write_view(w)) =~= launch_plan(install@, modded, strings_view(enabled@), strings_view(disabled@)));
    r
}

/// Whether a configuration belongs to a modded launch.
pub open spec fn is_modded_template(t: ConfigTemplate) -> bool {
    t == ConfigTemplate::ModdedRuntimeInit || t == ConfigTemplate::ModdedScriptingAssemblies
}

/// A launch writes the configurations of its own mode only; every launch
/// writes both engine files, each with its own configuration of the launch's mode, and a modded launch, and only it, then writes the
/// mod loader's list of the mods it was given.
pub proof fn launch_follows_mode(install: Seq<char>, modded: bool, enabled: Seq<Seq<char>>, disabled: Seq<Seq<char>>, i: int)
    requires
        0 <= i < launch_plan(install, modded, enabled, disabled).len(),
    ensures
        launch_plan(install, modded, enabled, disabled).len() == if modded { 3int } else { 2int },
        modded ==> launch_plan(install, modded, enabled, disabled)[2] == (enabled_list_location(install),
            PlannedContents::Text(enabled_list_text(enabled, disabled))),
        launch_plan(install, modded, enabled, disabled)[0].0 == runtime_init_location(install),
        launch_plan(install, modded, enabled, disabled)[1].0 == scripting_assemblies_location(install),
        launch_plan(install, modded, enabled, disabled)[0].1 == PlannedContents::Template(
            if modded { ConfigTemplate::ModdedRuntimeInit } else { ConfigTemplate::VanillaRuntimeInit }),
        launch_plan(install, modded, enabled, disabled)[1].1 == PlannedContents::Template(
            if modded { ConfigTemplate::ModdedScriptingAssemblies } else { ConfigTemplate::VanillaScriptingAssemblies }),
        match launch_plan(install, modded, enabled, disabled)[i].1 {
            PlannedContents::Template(t) => is_modded_template(t) == modded,
            PlannedContents::Text(_) => modded && launch_plan(install, modded, enabled, disabled)[i].0
                == enabled_list_location(install),
        },
{
}

/// How the game is started after its files are written.
#[derive(Debug)]
pub enum LaunchTarget {
    /// Through the Epic Games launcher.
    Epic,
    /// By running the executable at this path.
    Steam(String),
}

/// How a launch starts the game, given whether the Epic Games marker exists
/// (`None` where that could not be found out, and the launch starts nothing).
pub fn launch_target(install: &str, egstore_exists: Option<bool>) -> (r: Option<LaunchTarget>)
    ensures
        match egstore_exists {
            None => r is None,
            Some(true) => r matches Some(LaunchTarget::Epic),
            Some(false) => r matches Some(LaunchTarget::Steam(p)) && p@ == exe_location(install@),
        },
{
    match egstore_exists {
        None => None,
        Some(true) => Some(LaunchTarget::Epic),
        Some(false) => Some(LaunchTarget::Steam(exe_path(install))),
    }
}

/// Whether a path given as the installation is accepted: only where the game's
/// executable is known to exist there. Only an accepted path is saved.
pub fn path_accepted(exe_exists: Option<bool>) -> (r: bool)
    ensures
        r == (exe_exists == Some(true)),
{
    match exe_exists {
        Some(true) => true,
        _ => false,
    }
}

} // verus!
