use rl2_launcher::frontend::{Launcher, Request};
use rl2_launcher::manifest::ManifestError;
use rl2_launcher::window::{maximize_toggle, App, Event, TitlebarEvent, WindowTask};

fn s(x: &str) -> String {
    x.to_string()
}

#[test]
fn window_starts_maximized() {
    let (_app, task) = App::new();
    assert_eq!(task, WindowTask::Maximize);
}

#[test]
fn title_bar_buttons() {
    let (mut app, _) = App::new();
    assert_eq!(app.update(Event::Titlebar(TitlebarEvent::Hide)), WindowTask::Minimize);
    assert_eq!(app.update(Event::Titlebar(TitlebarEvent::Maximize)), WindowTask::ToggleMaximize);
    assert_eq!(app.update(Event::Titlebar(TitlebarEvent::Close)), WindowTask::Close);
}

#[test]
fn maximize_button_switches_state() {
    assert_eq!(maximize_toggle(Some(true)), Some(false));
    assert_eq!(maximize_toggle(Some(false)), Some(true));
    assert_eq!(maximize_toggle(None), None);
    assert_eq!(maximize_toggle(maximize_toggle(Some(true))), Some(true));
}

#[test]
fn loading_an_installation() {
    let mut page = Launcher::new();
    match page.path_edited("/g") {
        Request::CheckPath(p) => assert_eq!(p, "/g"),
        _ => panic!("the path is checked first"),
    }
    match page.path_checked("/g", true) {
        Some(Request::GetModList(p)) => assert_eq!(p, "/g"),
        _ => panic!("the mods are asked for"),
    }
    assert_eq!(page.path(), "/g");
    let mods = vec![
        s(r#"{"Name":"A","Author":"x","Version":"1"}"#),
        s(r#"{"Name":"B","Author":"y","Version":"2"}"#),
    ];
    match page.mods_listed("/g", Some(mods)) {
        Ok(Some(Request::GetEnabledModsList(p))) => assert_eq!(p, "/g"),
        _ => panic!("the enabled list is asked for"),
    }
    page.enabled_listed(Some(vec![s("B")]));
    assert!(!page.is_enabled("A"));
    assert!(page.is_enabled("B"));
    let rows = page.rows().unwrap();
    assert_eq!(rows.len(), 2);
    page.mod_clicked("A");
    assert!(page.is_enabled("A"));
    let launch = page.launch_request(true);
    assert_eq!(launch.path, "/g");
    let mut enabled = launch.enabled.clone();
    enabled.sort();
    assert_eq!(enabled, vec![s("A"), s("B")]);
    assert!(launch.disabled.is_empty());
    let vanilla = page.launch_request(false);
    assert!(!vanilla.modded && vanilla.enabled.is_empty() && vanilla.disabled.is_empty());
}

#[test]
fn a_wrong_path_is_left_aside() {
    let mut page = Launcher::new();
    page.saved_path_loaded(Some(s("/old")));
    let _ = page.mods_listed("/old", Some(vec![s(r#"{"Name":"A"}"#)]));
    let _ = page.path_edited("/wrong");
    assert!(page.path_checked("/wrong", false).is_none());
    assert_eq!(page.path(), "/old");
    assert!(page.rows().unwrap().is_empty());
}

#[test]
fn a_nameless_mod_stops_loading() {
    let mut page = Launcher::new();
    assert!(matches!(page.mods_listed("/g", Some(vec![s(r#"{"Author":"x"}"#)])), Err(ManifestError::MissingField)));
    assert!(page.mods_listed("/g", None).unwrap().is_none());
}
