use fsops::config::{
    config_file, directory_names, plugin_dir, plugin_file, plugins_root, theme_dir, theme_file, themes_root,
};
use fsops::fonts::font_families;
use fsops::tree::EntryInfo;
use fsops::window::{title_bar_choice, TitleBar};

#[test]
fn namespaced_paths() {
    assert_eq!(themes_root("/cfg"), "/cfg/themes");
    assert_eq!(plugins_root("/cfg"), "/cfg/plugins");
    assert_eq!(theme_dir("/cfg", "dark"), "/cfg/themes/dark");
    assert_eq!(theme_file("/cfg", "dark", "main.css"), "/cfg/themes/dark/main.css");
    assert_eq!(plugin_dir("/cfg", "notes-sync"), "/cfg/plugins/notes-sync");
    assert_eq!(plugin_file("/cfg", "notes-sync", "index.js"), "/cfg/plugins/notes-sync/index.js");
    assert_eq!(config_file("/cfg", "settings.json"), "/cfg/settings.json");
}

#[test]
fn only_directories_are_listed() {
    let e = |name: &str, is_directory: bool| EntryInfo {
        name: name.to_string(),
        path: format!("/cfg/themes/{}", name),
        is_directory,
        len: 0,
        modified: None,
    };
    let entries = vec![e("dark", true), e("notes.txt", false), e("light", true)];
    assert_eq!(directory_names(&entries), vec!["dark".to_string(), "light".to_string()]);
    assert!(directory_names(&Vec::new()).is_empty());
}

#[test]
fn font_families_sorted_and_unique() {
    let fams: Vec<String> = ["b", "a", "b", "C", "a"].iter().map(|s| s.to_string()).collect();
    assert_eq!(font_families(&fams), vec!["C".to_string(), "a".to_string(), "b".to_string()]);
    assert!(font_families(&Vec::new()).is_empty());
}

#[test]
fn title_bar_setting() {
    assert_eq!(title_bar_choice("{\"customTitleBar\": true}"), TitleBar::Custom);
    assert_eq!(title_bar_choice("{\"customTitleBar\": false, \"x\": 1}"), TitleBar::Native);
    assert_eq!(title_bar_choice("{\"customTitleBar\": \"yes\"}"), TitleBar::Unset);
    assert_eq!(title_bar_choice("{}"), TitleBar::Unset);
    assert_eq!(title_bar_choice("not json"), TitleBar::Unset);
}

#[test]
fn greeting_text() {
    assert_eq!(fsops::greeting::greet("Ada"), "Hello, Ada! You've been greeted from Rust!");
}
