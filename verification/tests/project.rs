use dslcad::project::{
    files, folders, join, part_file, DirEntry, Popup, PopupEvent, Project, ProjectAction,
    ProjectUiEvent, DELETE_MESSAGE, NEW_PART_MESSAGE,
};

fn entry(name: &str, is_dir: bool) -> DirEntry {
    DirEntry { name: name.to_string(), is_dir, is_file: !is_dir }
}

#[test]
fn join_adds_a_separator_unless_the_name_is_empty() {
    assert_eq!("a/b", join("a", "b"));
    assert_eq!("a", join("a", ""));
    assert_eq!("//b", join("/", "b"));
    assert_eq!("/x/part.ds", part_file("/x", "part"));
}

#[test]
fn listings_show_visible_folders_and_part_files_sorted() {
    let listing = vec![
        entry("zeta", true),
        entry(".git", true),
        entry("alpha", true),
        entry("b.ds", false),
        entry("a.ds", false),
        entry(".hidden.ds", false),
        entry("notes.txt", false),
        entry("dir.ds", true),
    ];
    assert_eq!(vec!["alpha", "dir.ds", "zeta"], folders(&listing));
    assert_eq!(vec!["a.ds", "b.ds"], files(&listing));
    assert_eq!(vec!["B", "a", "ab"], folders(&vec![entry("ab", true), entry("a", true), entry("B", true)]));
}

fn opened(path: &str, text: &str) -> Project {
    let mut project = Project::default();
    project.open_physical_project();
    let actions = project.open_file(path.to_string());
    assert!(matches!(&actions[..], [ProjectAction::ReadFile { path: p }] if p == path));
    project.file_read(path.to_string(), text.to_string());
    project
}

#[test]
fn saving_and_rendering_write_the_buffer() {
    let mut project = opened("/a.ds", "cube()");
    let mut popup = Popup::default();
    let actions = project.handle_ui_event(&mut popup, ProjectUiEvent::Save());
    assert!(matches!(&actions[..], [ProjectAction::WriteFile { path, contents }] if path == "/a.ds" && contents == "cube()"));
    let actions = project.handle_ui_event(&mut popup, ProjectUiEvent::Render());
    assert!(matches!(&actions[..], [ProjectAction::WriteFile { .. }, ProjectAction::Render { path }] if path == "/a.ds"));
    assert!(popup.action.is_none());
}

#[test]
fn deleting_the_open_file_closes_it() {
    let mut project = opened("/a.ds", "cube()");
    let mut popup = Popup::default();
    let actions = project.handle_ui_event(
        &mut popup,
        ProjectUiEvent::Delete { path: "/a.ds".to_string() },
    );
    assert!(actions.is_empty());
    assert_eq!(DELETE_MESSAGE, popup.message);
    let confirmed = popup.action.take().unwrap();
    assert!(matches!(&confirmed, PopupEvent::Confirm(ProjectUiEvent::Delete { .. })));
    let actions = project.handle_popup_event(confirmed);
    assert!(matches!(&actions[..], [ProjectAction::Remove { path }] if path == "/a.ds"));
    assert!(project.path.is_none());
    assert!(project.buffer.is_empty());
}

#[test]
fn a_new_part_is_named_in_its_folder() {
    let mut project = opened("/a.ds", "cube()");
    let mut popup = Popup::default();
    project.handle_ui_event(&mut popup, ProjectUiEvent::NewPart { path: "/parts".to_string() });
    assert_eq!(NEW_PART_MESSAGE, popup.message);
    let source = match popup.action.take().unwrap() {
        PopupEvent::Prompt(source, input) => {
            assert!(input.is_empty());
            source
        }
        _ => panic!("expected a prompt"),
    };
    let actions = project.handle_popup_event(PopupEvent::Prompt(source, "gear".to_string()));
    assert!(matches!(&actions[..], [ProjectAction::CreateFile { path }] if path == "/parts/gear.ds"));
    assert_eq!(Some("/a.ds".to_string()), project.path);
}

#[test]
fn without_a_file_system_nothing_is_asked() {
    let mut project = Project::default();
    assert!(project.open_file("/a.ds".to_string()).is_empty());
    assert!(project.save_buffer().is_empty());
    let actions = project.handle_popup_event(PopupEvent::Prompt(
        ProjectUiEvent::NewFolder { path: "/".to_string() },
        "sub".to_string(),
    ));
    assert!(actions.is_empty());
    let actions = project.open_memory_project();
    assert!(matches!(&actions[..], [ProjectAction::CreateDir { path }] if path == "/"));
    assert_eq!("/", project.root);
}
