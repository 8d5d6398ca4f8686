use rl2_launcher::launch::{
    enabled_list_json, enabled_mods_or_empty, launch_target, launch_writes, path_accepted, ConfigTemplate,
    EnabledModsJson, LaunchTarget, WriteContents,
};
use rl2_launcher::manifest::ManifestError;
use rl2_launcher::selection::ModSelection;

fn sorted(mut v: Vec<String>) -> Vec<String> {
    v.sort();
    v
}

fn s(x: &str) -> String {
    x.to_string()
}

#[test]
fn toggle_moves_a_mod_between_sets() {
    let mut sel = ModSelection::new();
    sel.disable(&s("A"));
    sel.toggle("A");
    assert!(sel.is_enabled("A") && !sel.is_disabled("A"));
    sel.toggle("A");
    assert!(!sel.is_enabled("A") && sel.is_disabled("A"));
}

#[test]
fn toggle_twice_restores_the_sets() {
    let mut sel = ModSelection::new();
    sel.disable(&s("A"));
    sel.enable(&s("B"));
    sel.toggle("B");
    sel.toggle("B");
    assert_eq!(sorted(sel.enabled_names()), vec![s("B")]);
    assert_eq!(sorted(sel.disabled_names()), vec![s("A")]);
}

#[test]
fn toggle_of_an_unknown_mod_disables_it() {
    let mut sel = ModSelection::new();
    sel.toggle("Z");
    assert!(sel.is_disabled("Z") && !sel.is_enabled("Z"));
}

#[test]
fn toggle_leaves_other_mods() {
    let mut sel = ModSelection::new();
    sel.disable(&s("A"));
    sel.enable(&s("B"));
    sel.toggle("A");
    assert!(sel.is_enabled("B") && !sel.is_disabled("B"));
}

#[test]
fn register_then_apply_enabled() {
    let mut sel = ModSelection::new();
    let texts = vec![
        s(r#"{"Name":"A"}"#),
        s(r#"{"Name":"B"}"#),
        s("[1,2]"),
        s(r#"{"Name":false}"#),
        s(r#"{"Name":"A"}"#),
    ];
    assert_eq!(sel.register_manifests(&texts), Ok(()));
    assert_eq!(sorted(sel.disabled_names()), vec![s("A"), s("B")]);
    assert!(sel.enabled_names().is_empty());
    sel.apply_enabled(&vec![s("B"), s("C")]);
    assert_eq!(sorted(sel.enabled_names()), vec![s("B"), s("C")]);
    assert_eq!(sorted(sel.disabled_names()), vec![s("A")]);
    sel.apply_enabled(&vec![s("B"), s("C")]);
    assert_eq!(sorted(sel.enabled_names()), vec![s("B"), s("C")]);
    assert_eq!(sorted(sel.disabled_names()), vec![s("A")]);
}

#[test]
fn registration_stops_at_a_nameless_object() {
    let mut sel = ModSelection::new();
    let texts = vec![s(r#"{"Name":"A"}"#), s(r#"{"Author":"x"}"#), s(r#"{"Name":"B"}"#)];
    assert_eq!(sel.register_manifests(&texts), Err(ManifestError::MissingField));
    assert_eq!(sorted(sel.disabled_names()), vec![s("A")]);
}

#[test]
fn registration_keeps_enabled_mods_enabled() {
    let mut sel = ModSelection::new();
    sel.enable(&s("A"));
    assert_eq!(sel.register_manifests(&vec![s(r#"{"Name":"A"}"#)]), Ok(()));
    assert!(sel.is_enabled("A") && sel.is_disabled("A"));
}

#[test]
fn enabled_list_text_has_serde_layout() {
    let text = enabled_list_json(&vec![s("A"), s("B\"q")], &vec![]);
    assert_eq!(text, r#"{"Enabled":["A","B\"q"],"Disabled":[]}"#);
}

#[test]
fn enabled_mods_of_a_list() {
    let j = EnabledModsJson { enabled: vec![s("A")], disabled: vec![s("B")] };
    assert_eq!(enabled_mods_or_empty(Some(j)), vec![s("A")]);
    assert!(enabled_mods_or_empty(None).is_empty());
}

#[test]
fn modded_launch_writes_configs_and_list() {
    let w = launch_writes("/g", true, &vec![s("A")], &vec![s("B")]);
    assert_eq!(w.len(), 3);
    assert_eq!(w[0].path, "/g/Rogue Legacy 2_Data/RuntimeInitializeOnLoads.json");
    assert!(matches!(w[0].contents, WriteContents::Template(ConfigTemplate::ModdedRuntimeInit)));
    assert_eq!(w[1].path, "/g/Rogue Legacy 2_Data/ScriptingAssemblies.json");
    assert!(matches!(w[1].contents, WriteContents::Template(ConfigTemplate::ModdedScriptingAssemblies)));
    assert_eq!(w[2].path, "/g/Rogue Legacy 2_Data/Mods/enabled.json");
    match &w[2].contents {
        WriteContents::Text(t) => assert_eq!(t, r#"{"Enabled":["A"],"Disabled":["B"]}"#),
        _ => panic!("the list is written as text"),
    }
}

#[test]
fn vanilla_launch_writes_vanilla_configs_only() {
    let w = launch_writes("/g", false, &vec![s("A")], &vec![]);
    assert_eq!(w.len(), 2);
    assert!(matches!(w[0].contents, WriteContents::Template(ConfigTemplate::VanillaRuntimeInit)));
    assert!(matches!(w[1].contents, WriteContents::Template(ConfigTemplate::VanillaScriptingAssemblies)));
}

#[test]
fn launch_goes_through_the_right_store() {
    assert!(matches!(launch_target("/g", Some(true)), Some(LaunchTarget::Epic)));
    match launch_target("/g", Some(false)) {
        Some(LaunchTarget::Steam(p)) => assert_eq!(p, "/g/Rogue Legacy 2.exe"),
        _ => panic!("a Steam install runs the executable"),
    }
    assert!(launch_target("/g", None).is_none());
}

#[test]
fn only_a_path_with_the_game_is_accepted() {
    assert!(path_accepted(Some(true)));
    assert!(!path_accepted(Some(false)));
    assert!(!path_accepted(None));
}

#[test]
fn modded_launch_always_writes_the_list() {
    let w = launch_writes("/g", true, &vec![], &vec![]);
    assert_eq!(w.len(), 3);
    match &w[2].contents {
        WriteContents::Text(t) => assert_eq!(t, r#"{"Enabled":[],"Disabled":[]}"#),
        _ => panic!("the list is written as text"),
    }
}
