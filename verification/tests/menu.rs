use dslcad::menu::{
    flag_from, flag_text, menu_from_name, menu_path, Menu, MenuPathError, TopLevelMenu, ViewFlag,
    ViewFlags,
};
use dslcad::settings::{MemStore, Store};

#[test]
fn menu_path_splits_menu_and_action() {
    let (menu, action) = menu_path("Camera/Focus").unwrap();
    assert_eq!(menu, TopLevelMenu::Camera);
    assert_eq!(action, "Focus");

    let (menu, action) = menu_path("Help/Cheat Sheet").unwrap();
    assert_eq!(menu, TopLevelMenu::Help);
    assert_eq!(action, "Cheat Sheet");
}

#[test]
fn menu_path_takes_the_action_up_to_the_next_slash() {
    let (menu, action) = menu_path("File/Exit/Now").unwrap();
    assert_eq!(menu, TopLevelMenu::File);
    assert_eq!(action, "Exit");

    let (menu, action) = menu_path("View/").unwrap();
    assert_eq!(menu, TopLevelMenu::View);
    assert_eq!(action, "");
}

#[test]
fn menu_path_refuses_unknown_menus() {
    assert_eq!(menu_path("Tools/Run").unwrap_err(), MenuPathError::UnknownMenu);
    assert_eq!(menu_path("file/Exit").unwrap_err(), MenuPathError::UnknownMenu);
    assert_eq!(menu_path("/Exit").unwrap_err(), MenuPathError::UnknownMenu);
    assert_eq!(menu_path("").unwrap_err(), MenuPathError::UnknownMenu);
    assert_eq!(
        MenuPathError::UnknownMenu.message(),
        "unknown top level menu"
    );
}

#[test]
fn menu_path_needs_an_action() {
    assert_eq!(menu_path("Window").unwrap_err(), MenuPathError::MissingAction);
    assert_eq!(menu_path("Tools").unwrap_err(), MenuPathError::UnknownMenu);
    assert_eq!(MenuPathError::MissingAction.message(), "menu must have action");
}

#[test]
fn menu_names_read_back() {
    let all = [
        TopLevelMenu::File,
        TopLevelMenu::View,
        TopLevelMenu::Camera,
        TopLevelMenu::Rendering,
        TopLevelMenu::Export,
        TopLevelMenu::Window,
        TopLevelMenu::Help,
    ];
    for menu in all {
        assert_eq!(menu_from_name(menu.name()), Some(menu));
    }
    assert_eq!(TopLevelMenu::Rendering.name(), "Rendering");
    assert_eq!(menu_from_name("Edit"), None);
}

#[test]
fn menu_sections_follow_the_bar_order() {
    let mut menu = Menu::new();
    assert!(menu.sections().is_empty());
    menu.button(TopLevelMenu::Help, "About");
    menu.button(TopLevelMenu::File, "Exit");
    menu.button(TopLevelMenu::Help, "Cheat Sheet");
    menu.button(TopLevelMenu::View, "UI Zoom In");

    let sections = menu.sections();
    assert_eq!(sections.len(), 3);
    assert_eq!(sections[0].0, TopLevelMenu::File);
    assert_eq!(sections[0].1, vec!["Exit".to_string()]);
    assert_eq!(sections[1].0, TopLevelMenu::View);
    assert_eq!(sections[1].1, vec!["UI Zoom In".to_string()]);
    assert_eq!(sections[2].0, TopLevelMenu::Help);
    assert_eq!(
        sections[2].1,
        vec!["About".to_string(), "Cheat Sheet".to_string()]
    );
}

#[test]
fn stored_flags_read_true_only() {
    assert!(flag_from(Some("true"), false));
    assert!(!flag_from(Some("false"), true));
    assert!(!flag_from(Some("yes"), true));
    assert!(!flag_from(Some("True"), true));
    assert!(flag_from(None, true));
    assert!(!flag_from(None, false));
    assert_eq!(flag_text(true), "true");
    assert_eq!(flag_text(false), "false");
}

#[test]
fn view_flags_default_from_an_empty_store() {
    let store = MemStore::new();
    let flags = ViewFlags::load(&store);
    assert_eq!(flags, ViewFlags::default());
    assert!(flags.show_points && flags.show_lines && flags.show_mesh && flags.show_grid);
    assert!(!flags.part_colors);
}

#[test]
fn toggled_view_flag_is_stored_and_reloaded() {
    let mut store = MemStore::new();
    let mut flags = ViewFlags::new();
    flags.toggle(ViewFlag::Mesh, &mut store);
    assert!(!flags.show_mesh);
    assert_eq!(store.load("mesh"), Some("false"));
    flags.toggle(ViewFlag::PartColors, &mut store);
    assert!(flags.part_colors);
    assert_eq!(store.load("colors"), Some("true"));

    let reloaded = ViewFlags::load(&store);
    assert_eq!(reloaded, flags);
    assert_eq!(ViewFlag::Points.key(), "points");
}

#[test]
fn view_flags_read_stored_values() {
    let mut store = MemStore::new();
    store.store("points", "false");
    store.store("lines", "nope");
    store.store("colors", "true");
    let flags = ViewFlags::load(&store);
    assert!(!flags.show_points);
    assert!(!flags.show_lines);
    assert!(flags.show_mesh);
    assert!(flags.part_colors);
}
