use rl2_launcher::manifest::{manifest_name, mod_entries, mod_entry, member_value, ManifestError};
use rl2_launcher::paths::{
    egstore_path, enabled_list_path, ends_with, exe_path, is_mod_manifest, manifest_files, mods_dir,
    runtime_init_path, saved_path_file, scripting_assemblies_path,
};

#[test]
fn paths_inside_installation() {
    assert_eq!(exe_path("C:/Games/RL2"), "C:/Games/RL2/Rogue Legacy 2.exe");
    assert_eq!(mods_dir("/g"), "/g/Rogue Legacy 2_Data/Mods");
    assert_eq!(enabled_list_path("/g"), "/g/Rogue Legacy 2_Data/Mods/enabled.json");
    assert_eq!(runtime_init_path("/g"), "/g/Rogue Legacy 2_Data/RuntimeInitializeOnLoads.json");
    assert_eq!(scripting_assemblies_path("/g"), "/g/Rogue Legacy 2_Data/ScriptingAssemblies.json");
    assert_eq!(egstore_path("/g"), "/g/.egstore");
}

#[test]
fn saved_path_lies_in_local_data() {
    assert_eq!(saved_path_file("/home/u/.local/share"), "/home/u/.local/share/com.rl2-launcher.app/path.saved");
}

#[test]
fn suffix_check() {
    assert!(ends_with("a/b.mod.json", ".mod.json"));
    assert!(ends_with(".mod.json", ".mod.json"));
    assert!(!ends_with("a/b.json", ".mod.json"));
    assert!(!ends_with("json", ".mod.json"));
    assert!(ends_with("anything", ""));
    assert!(ends_with("dir/é.mod.json", ".mod.json"));
}

#[test]
fn manifest_entries_are_files_ending_in_mod_json() {
    assert!(is_mod_manifest(false, "Mods/A/a.mod.json"));
    assert!(!is_mod_manifest(true, "Mods/A.mod.json"));
    assert!(!is_mod_manifest(false, "Mods/A/a.json"));
    let entries = vec![
        ("Mods".to_string(), true),
        ("Mods/A.mod.json".to_string(), true),
        ("Mods/A/a.mod.json".to_string(), false),
        ("Mods/A/readme.txt".to_string(), false),
        ("Mods/B/b.mod.json".to_string(), false),
    ];
    assert_eq!(manifest_files(&entries), vec!["Mods/A/a.mod.json".to_string(), "Mods/B/b.mod.json".to_string()]);
    assert_eq!(manifest_files(&Vec::new()), Vec::<String>::new());
}

#[test]
fn name_of_a_mod() {
    assert_eq!(manifest_name(r#"{"Name":"Better Runes","Author":"x","Version":"1.0"}"#), Ok(Some("Better Runes".to_string())));
    assert_eq!(manifest_name(r#"{"Name":3}"#), Ok(None));
    assert_eq!(manifest_name(r#"{"Title":"x"}"#), Err(ManifestError::MissingField));
    assert_eq!(manifest_name(r#"["Name"]"#), Err(ManifestError::NotAnObject));
    assert_eq!(manifest_name("not json"), Err(ManifestError::NotAnObject));
    assert_eq!(manifest_name(r#"{"Name":"a\"b"}"#), Ok(Some("a\"b".to_string())));
}

#[test]
fn member_lookup() {
    let members = vec![("A".to_string(), None), ("B".to_string(), Some("b".to_string()))];
    assert_eq!(member_value(&members, "B"), Some(Some("b".to_string())));
    assert_eq!(member_value(&members, "A"), Some(None));
    assert_eq!(member_value(&members, "C"), None);
}

#[test]
fn entry_of_a_mod() {
    let e = mod_entry(r#"{"Name":"N","Author":"A","Version":"2.1","Extra":[1]}"#).unwrap().unwrap();
    assert_eq!((e.name.as_str(), e.author.as_str(), e.version.as_str()), ("N", "A", "2.1"));
    assert!(matches!(mod_entry(r#"{"Name":"N","Author":"A","Version":2}"#), Ok(None)));
    assert!(matches!(mod_entry(r#"{"Name":"N","Author":"A"}"#), Err(ManifestError::MissingField)));
    assert!(matches!(mod_entry("12"), Err(ManifestError::NotAnObject)));
}

#[test]
fn rows_of_the_mod_list() {
    let texts = vec![
        r#"{"Name":"One","Author":"a","Version":"1"}"#.to_string(),
        "garbage".to_string(),
        r#"{"Name":"Two","Author":"b","Version":null}"#.to_string(),
        r#"{"Name":"Three","Author":"c","Version":"3"}"#.to_string(),
    ];
    let rows = mod_entries(&texts).unwrap();
    let names: Vec<&str> = rows.iter().map(|e| e.name.as_str()).collect();
    assert_eq!(names, vec!["One", "Three"]);
    let broken = vec![texts[0].clone(), r#"{"Name":"X"}"#.to_string(), texts[3].clone()];
    assert!(matches!(mod_entries(&broken), Err(ManifestError::MissingField)));
}
