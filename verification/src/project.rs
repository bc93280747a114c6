//! A project: a folder of part files, the part open in the editor, and how
//! the project window's events change them. The file system itself is
//! driven by the caller, who performs the actions this module asks for.
use vstd::prelude::*;

use crate::text::{chars_of, sort_strings, str_le};

verus! {

/// Joins a folder path and a name with `/`; an empty name leaves the path.
pub open spec fn join_spec(a: Seq<char>, b: Seq<char>) -> Seq<char> {
    if b.len() == 0 {
        a
    } else {
        a + seq!['/'] + b
    }
}

/// Joins a folder path and a name with `/`; an empty name leaves the path.
pub fn join(a: &str, b: &str) -> (joined: String)
    ensures
        joined@ == join_spec(a@, b@),
{
    let mut joined = String::from_str(a);
    if b.unicode_len() == 0 {
        return joined;
    }
    proof {
        reveal_strlit("/");
    }
    joined.append("/");
    joined.append(b);
    assert(joined@ =~= join_spec(a@, b@));
    joined
}

/// The file name of a new part called `name` in folder `path`.
pub open spec fn part_file_spec(path: Seq<char>, name: Seq<char>) -> Seq<char> {
    join_spec(path, name) + seq!['.', 'd', 's']
}

/// The file name of a new part called `name` in folder `path`.
pub fn part_file(path: &str, name: &str) -> (file: String)
    ensures
        file@ == part_file_spec(path@, name@),
{
    let mut file = join(path, name);
    proof {
        reveal_strlit(".ds");
    }
    file.append(".ds");
    file
}

/// An entry of a folder listing.
#[derive(Clone, Debug)]
pub struct DirEntry {
    pub name: String,
    pub is_dir: bool,
    pub is_file: bool,
}

/// Hidden entries start with a dot.
pub open spec fn hidden(name: Seq<char>) -> bool {
    name.len() > 0 && name[0] == '.'
}

/// Part files end in `.ds`.
pub open spec fn part_name(name: Seq<char>) -> bool {
    name.len() >= 3 && name.subrange(name.len() - 3, name.len() as int) == seq!['.', 'd', 's']
}

/// The listing entries a folder view shows.
pub open spec fn shown_folder(e: DirEntry) -> bool {
    e.is_dir && !hidden(e.name@)
}

/// The listing entries a file view shows.
pub open spec fn shown_file(e: DirEntry) -> bool {
    e.is_file && !hidden(e.name@) && part_name(e.name@)
}

/// The names of the entries that satisfy `keep`, in listing order.
pub open spec fn names_where(es: Seq<DirEntry>, keep: spec_fn(DirEntry) -> bool) -> Seq<Seq<char>>
    decreases es.len(),
{
    if es.len() == 0 {
        seq![]
    } else {
        let prev = names_where(es.drop_last(), keep);
        if keep(es.last()) {
            prev.push(es.last().name@)
        } else {
            prev
        }
    }
}

/// Names in the order of strings, each as often as given.
pub open spec fn sorted_names(names: Seq<String>, of: Seq<Seq<char>>) -> bool {
    &&& names.map_values(|s: String| s@).to_multiset() == of.to_multiset()
    &&& forall|a: int, b: int|
        0 <= a < b < names.len() ==> str_le(#[trigger] names[a]@, #[trigger] names[b]@)
}

fn is_hidden(name: &str) -> (h: bool)
    ensures
        h == hidden(name@),
{
    let cs = chars_of(name);
    cs.len() > 0 && cs[0] == '.'
}

fn is_part_name(name: &str) -> (p: bool)
    ensures
        p == part_name(name@),
{
    let cs = chars_of(name);
    let n = cs.len();
    if n < 3 {
        return false;
    }
    let p = cs[n - 3] == '.' && cs[n - 2] == 'd' && cs[n - 1] == 's';
    assert(p == (cs@.subrange(n - 3, n as int) =~= seq!['.', 'd', 's']));
    p
}

proof fn lemma_map_views_push(names: Seq<String>, s: String)
    ensures
        names.push(s).map_values(|x: String| x@) == names.map_values(|x: String| x@).push(s@),
{
    assert(names.push(s).map_values(|x: String| x@) =~= names.map_values(|x: String| x@).push(
        s@,
    ));
}

/// The names of the entries that satisfy `keep`, sorted.
fn sorted_names_where(entries: &Vec<DirEntry>, folders: bool) -> (names: Vec<String>)
    ensures
        sorted_names(
            names@,
            names_where(
                entries@,
                if folders {
                    |e: DirEntry| shown_folder(e)
                } else {
                    |e: DirEntry| shown_file(e)
                },
            ),
        ),
{
    let ghost keep = if folders {
        |e: DirEntry| shown_folder(e)
    } else {
        |e: DirEntry| shown_file(e)
    };
    let mut names: Vec<String> = Vec::new();
    let mut i: usize = 0;
    while i < entries.len()
        invariant
            i <= entries.len(),
            keep == (if folders {
                |e: DirEntry| shown_folder(e)
            } else {
                |e: DirEntry| shown_file(e)
            }),
            names@.map_values(|s: String| s@) == names_where(entries@.take(i as int), keep),
        decreases entries.len() - i,
    {
        let e = &entries[i];
        let shown = if folders {
            e.is_dir && !is_hidden(e.name.as_str())
        } else {
            e.is_file && !is_hidden(e.name.as_str()) && is_part_name(e.name.as_str())
        };
        assert(entries@.take(i + 1).drop_last() =~= entries@.take(i as int));
        assert(entries@.take(i + 1).last() == entries@[i as int]);
        assert(shown == keep(entries@[i as int]));
        if shown {
            let name = e.name.clone();
            proof {
                lemma_map_views_push(names@, name);
            }
            names.push(name);
        }
        i += 1;
    }
    assert(entries@.take(i as int) =~= entries@);
    let ghost unsorted = names@;
    sort_strings(&mut names);
    proof {
        lemma_multiset_map_views(unsorted, names@);
    }
    names
}

proof fn lemma_multiset_map_views(a: Seq<String>, b: Seq<String>)
    requires
        a.to_multiset() == b.to_multiset(),
    ensures
        a.map_values(|s: String| s@).to_multiset() == b.map_values(|s: String| s@).to_multiset(),
    decreases a.len(),
{
    broadcast use vstd::seq_lib::group_to_multiset_ensures;

    if a.len() == 0 {
        vstd::seq_lib::to_multiset_len(a);
        vstd::seq_lib::to_multiset_len(b);
        assert(b.len() == 0);
        assert(b.map_values(|s: String| s@) =~= Seq::<Seq<char>>::empty());
        assert(a.map_values(|s: String| s@) =~= Seq::<Seq<char>>::empty());
    } else {
        let x = a.last();
        assert(a.to_multiset().count(x) > 0);
        assert(b.to_multiset().count(x) > 0);
        assert(b.contains(x));
        let k = choose|k: int| 0 <= k < b.len() && b[k] == x;
        let b2 = b.remove(k);
        assert(a.drop_last().to_multiset() =~= a.to_multiset().remove(x)) by {
            assert(a =~= a.drop_last().push(x));
        }
        assert(b2.to_multiset() =~= b.to_multiset().remove(x));
        lemma_multiset_map_views(a.drop_last(), b2);
        assert(a.map_values(|s: String| s@) =~= a.drop_last().map_values(|s: String| s@).push(x@));
        assert(b.map_values(|s: String| s@).remove(k) =~= b2.map_values(|s: String| s@));
        assert(b.map_values(|s: String| s@)[k] == x@);
        let ma = a.map_values(|s: String| s@);
        let mb = b.map_values(|s: String| s@);
        assert(mb.to_multiset().count(x@) > 0) by {
            assert(mb[k] == x@);
        }
        assert(mb.remove(k).to_multiset() == mb.to_multiset().remove(x@));
        assert(mb.to_multiset() =~= mb.to_multiset().remove(x@).insert(x@));
        assert(ma.to_multiset() == a.drop_last().map_values(|s: String| s@).to_multiset().insert(
            x@,
        ));
    }
}

/// The folders a listing shows: directories whose names do not start with
/// a dot, sorted.
pub fn folders(entries: &Vec<DirEntry>) -> (names: Vec<String>)
    ensures
        sorted_names(names@, names_where(entries@, |e: DirEntry| shown_folder(e))),
{
    sorted_names_where(entries, true)
}

/// The part files a listing shows: files whose names end in `.ds` and do
/// not start with a dot, sorted.
pub fn files(entries: &Vec<DirEntry>) -> (names: Vec<String>)
    ensures
        sorted_names(names@, names_where(entries@, |e: DirEntry| shown_file(e))),
{
    sorted_names_where(entries, false)
}


/// What the project window asks for.
#[derive(Clone, Debug)]
pub enum ProjectUiEvent {
    Open { path: String },
    NewPart { path: String },
    NewFolder { path: String },
    Delete { path: String },
    Save(),
    Render(),
}

/// The answer to a popup: a confirmed request, or a request with the text
/// the user entered.
#[derive(Clone, Debug)]
pub enum PopupEvent {
    Confirm(ProjectUiEvent),
    Prompt(ProjectUiEvent, String),
}

/// The popup of the project window: a message and the request it asks about.
pub struct Popup {
    pub message: &'static str,
    pub action: Option<PopupEvent>,
}

pub const NEW_PART_MESSAGE: &'static str = "Enter new part name:";

pub const NEW_FOLDER_MESSAGE: &'static str = "Enter new folder name:";

pub const DELETE_MESSAGE: &'static str = "Are you sure you want to delete this file?";

impl Popup {
    /// No popup shown.
    pub fn new() -> (popup: Self)
        ensures
            popup.message == "",
            popup.action is None,
    {
        Popup { message: "", action: None }
    }

    /// Asks the user to confirm `confirm`.
    pub fn show_confirm(&mut self, message: &'static str, confirm: ProjectUiEvent)
        ensures
            final(self).message == message,
            final(self).action == Some(PopupEvent::Confirm(confirm)),
    {
        self.message = message;
        self.action = Some(PopupEvent::Confirm(confirm));
    }

    /// Asks the user for a name to carry out `confirm` with.
    pub fn prompt(&mut self, message: &'static str, confirm: ProjectUiEvent)
        ensures
            final(self).message == message,
            (final(self).action matches Some(PopupEvent::Prompt(e, text)) && e == confirm && text@
                == Seq::<char>::empty()),
    {
        self.message = message;
        self.action = Some(PopupEvent::Prompt(confirm, String::new()));
    }
}

impl Default for Popup {
    fn default() -> (popup: Self)
        ensures
            popup.message == "",
            popup.action is None,
    {
        Popup::new()
    }
}

/// What the project asks of the file system and the editor.
#[derive(Clone, Debug)]
pub enum ProjectAction {
    /// Read the file, then hand its text to `Project::file_read`.
    ReadFile { path: String },
    WriteFile { path: String, contents: String },
    CreateFile { path: String },
    CreateDir { path: String },
    /// Remove the file or folder.
    Remove { path: String },
    /// Render the part in the file.
    Render { path: String },
}

/// A project: whether a file system is open, the part file in the editor,
/// the root folder and the editor's text.
pub struct Project {
    pub fs_open: bool,
    pub path: Option<String>,
    pub root: String,
    pub buffer: String,
}

impl Project {
    /// A project without a file system.
    pub fn new() -> (project: Self)
        ensures
            !project.fs_open,
            project.path is None,
            project.root@ == Seq::<char>::empty(),
            project.buffer@ == Seq::<char>::empty(),
    {
        Project { fs_open: false, path: None, root: String::new(), buffer: String::new() }
    }

    /// Opens a project on a folder of the disk.
    pub fn open_physical_project(&mut self)
        ensures
            final(self).fs_open,
            final(self).path == old(self).path,
            final(self).root == old(self).root,
            final(self).buffer == old(self).buffer,
    {
        self.fs_open = true;
    }

    /// Opens a project held in memory, rooted at `/`; the caller creates
    /// that folder.
    pub fn open_memory_project(&mut self) -> (actions: Vec<ProjectAction>)
        ensures
            final(self).fs_open,
            final(self).root@ == seq!['/'],
            final(self).path == old(self).path,
            final(self).buffer == old(self).buffer,
            actions@.len() == 1,
            actions@[0] matches ProjectAction::CreateDir { path } && path@ == seq!['/'],
    {
        proof {
            reveal_strlit("/");
        }
        self.fs_open = true;
        self.root = String::from_str("/");
        vec![ProjectAction::CreateDir { path: String::from_str("/") }]
    }

    /// Asks for the file to open; `file_read` completes the opening.
    pub fn open_file(&self, path: String) -> (actions: Vec<ProjectAction>)
        ensures
            actions@ == if self.fs_open {
                seq![ProjectAction::ReadFile { path }]
            } else {
                Seq::<ProjectAction>::empty()
            },
    {
        if self.fs_open {
            vec![ProjectAction::ReadFile { path }]
        } else {
            Vec::new()
        }
    }

    /// The file at `path` was read: it is now the file in the editor.
    pub fn file_read(&mut self, path: String, contents: String)
        ensures
            final(self).path == Some(path),
            final(self).buffer == contents,
            final(self).fs_open == old(self).fs_open,
            final(self).root == old(self).root,
    {
        self.buffer = contents;
        self.path = Some(path);
    }

    /// Asks for a new, empty file.
    pub fn new_file(&self, path: String) -> (actions: Vec<ProjectAction>)
        ensures
            actions@ == if self.fs_open {
                seq![ProjectAction::CreateFile { path }]
            } else {
                Seq::<ProjectAction>::empty()
            },
    {
        if self.fs_open {
            vec![ProjectAction::CreateFile { path }]
        } else {
            Vec::new()
        }
    }

    /// Asks for a new folder.
    pub fn new_folder(&self, path: String) -> (actions: Vec<ProjectAction>)
        ensures
            actions@ == if self.fs_open {
                seq![ProjectAction::CreateDir { path }]
            } else {
                Seq::<ProjectAction>::empty()
            },
    {
        if self.fs_open {
            vec![ProjectAction::CreateDir { path }]
        } else {
            Vec::new()
        }
    }

    /// Closes the file in the editor when it is the one deleted, and asks
    /// for the removal.
    pub fn delete(&mut self, path: &str) -> (actions: Vec<ProjectAction>)
        ensures
            ({
                let closes = old(self).path matches Some(p) && p@ == path@;
                &&& closes ==> final(self).path is None && final(self).buffer@ == Seq::<
                    char,
                >::empty()
                &&& !closes ==> final(self).path == old(self).path && final(self).buffer == old(
                    self,
                ).buffer
            }),
            final(self).fs_open == old(self).fs_open,
            final(self).root == old(self).root,
            actions@.len() == if old(self).fs_open {
                1int
            } else {
                0int
            },
            old(self).fs_open ==> (actions@[0] matches ProjectAction::Remove { path: p } && p@
                == path@),
    {
        let target = String::from_str(path);
        let closes = match &self.path {
            Some(p) => *p == target,
            None => false,
        };
        if closes {
            self.path = None;
            self.buffer = String::new();
        }
        if self.fs_open {
            vec![ProjectAction::Remove { path: target }]
        } else {
            Vec::new()
        }
    }

    /// Asks to write the editor's text to its file.
    pub fn save_buffer(&self) -> (actions: Vec<ProjectAction>)
        ensures
            actions@ == match self.path {
                Some(p) => if self.fs_open {
                    seq![ProjectAction::WriteFile { path: p, contents: self.buffer }]
                } else {
                    Seq::<ProjectAction>::empty()
                },
                None => Seq::<ProjectAction>::empty(),
            },
    {
        match &self.path {
            Some(p) => if self.fs_open {
                vec![ProjectAction::WriteFile { path: p.clone(), contents: self.buffer.clone() }]
            } else {
                Vec::new()
            },
            None => Vec::new(),
        }
    }

    /// Handles a request of the project window. Opening, saving and
    /// rendering act at once; new parts and folders ask for a name, and
    /// deletions for a confirmation, through the popup.
    pub fn handle_ui_event(&mut self, popup: &mut Popup, event: ProjectUiEvent) -> (actions: Vec<
        ProjectAction,
    >)
        requires
            event is Render ==> old(self).path is Some,
        ensures
            final(self).fs_open == old(self).fs_open,
            final(self).root == old(self).root,
            final(self).path == old(self).path,
            final(self).buffer == old(self).buffer,
            match event {
                ProjectUiEvent::Open { path } => {
                    &&& actions@ == (if old(self).fs_open {
                        seq![ProjectAction::ReadFile { path }]
                    } else {
                        Seq::<ProjectAction>::empty()
                    })
                    &&& *final(popup) == *old(popup)
                },
                ProjectUiEvent::Save() => {
                    &&& actions@ == old(self).save_actions()
                    &&& *final(popup) == *old(popup)
                },
                ProjectUiEvent::Render() => {
                    &&& actions@ == old(self).save_actions().push(
                        ProjectAction::Render { path: old(self).path->0 },
                    )
                    &&& *final(popup) == *old(popup)
                },
                ProjectUiEvent::NewPart { .. } => {
                    &&& actions@.len() == 0
                    &&& final(popup).message == NEW_PART_MESSAGE
                    &&& (final(popup).action matches Some(PopupEvent::Prompt(e, text)) && e == event
                        && text@ == Seq::<char>::empty())
                },
                ProjectUiEvent::NewFolder { .. } => {
                    &&& actions@.len() == 0
                    &&& final(popup).message == NEW_FOLDER_MESSAGE
                    &&& (final(popup).action matches Some(PopupEvent::Prompt(e, text)) && e == event
                        && text@ == Seq::<char>::empty())
                },
                ProjectUiEvent::Delete { .. } => {
                    &&& actions@.len() == 0
                    &&& final(popup).message == DELETE_MESSAGE
                    &&& final(popup).action == Some(PopupEvent::Confirm(event))
                },
            },
    {
        match event {
            ProjectUiEvent::Open { path } => self.open_file(path),
            ProjectUiEvent::Save() => self.save_buffer(),
            ProjectUiEvent::Render() => {
                let mut actions = self.save_buffer();
                let path = match &self.path {
                    Some(p) => p.clone(),
                    None => String::new(),
                };
                actions.push(ProjectAction::Render { path });
                actions
            },
            ProjectUiEvent::NewPart { .. } => {
                popup.prompt(NEW_PART_MESSAGE, event);
                Vec::new()
            },
            ProjectUiEvent::NewFolder { .. } => {
                popup.prompt(NEW_FOLDER_MESSAGE, event);
                Vec::new()
            },
            ProjectUiEvent::Delete { .. } => {
                popup.show_confirm(DELETE_MESSAGE, event);
                Vec::new()
            },
        }
    }

    /// The actions of `save_buffer`.
    pub open spec fn save_actions(&self) -> Seq<ProjectAction> {
        match self.path {
            Some(p) => if self.fs_open {
                seq![ProjectAction::WriteFile { path: p, contents: self.buffer }]
            } else {
                Seq::<ProjectAction>::empty()
            },
            None => Seq::<ProjectAction>::empty(),
        }
    }

    /// Carries out what the user confirmed in the popup: a deletion, or a
    /// new part (`name.ds`) or folder in the folder the request named.
    pub fn handle_popup_event(&mut self, event: PopupEvent) -> (actions: Vec<ProjectAction>)
        ensures
            final(self).fs_open == old(self).fs_open,
            final(self).root == old(self).root,
            match event {
                PopupEvent::Confirm(ProjectUiEvent::Delete { path }) => {
                    let closes = old(self).path matches Some(p) && p@ == path@;
                    &&& closes ==> final(self).path is None && final(self).buffer@
                        == Seq::<char>::empty()
                    &&& !closes ==> final(self).path == old(self).path && final(self).buffer
                        == old(self).buffer
                    &&& actions@.len() == (if old(self).fs_open {
                        1int
                    } else {
                        0int
                    })
                    &&& old(self).fs_open ==> (actions@[0] matches ProjectAction::Remove {
                        path: p,
                    } && p@ == path@)
                },
                PopupEvent::Prompt(ProjectUiEvent::NewPart { path }, input) => {
                    &&& final(self).path == old(self).path
                    &&& final(self).buffer == old(self).buffer
                    &&& actions@.len() == (if old(self).fs_open {
                        1int
                    } else {
                        0int
                    })
                    &&& old(self).fs_open ==> (actions@[0] matches ProjectAction::CreateFile {
                        path: p,
                    } && p@ == part_file_spec(path@, input@))
                },
                PopupEvent::Prompt(ProjectUiEvent::NewFolder { path }, input) => {
                    &&& final(self).path == old(self).path
                    &&& final(self).buffer == old(self).buffer
                    &&& actions@.len() == (if old(self).fs_open {
                        1int
                    } else {
                        0int
                    })
                    &&& old(self).fs_open ==> (actions@[0] matches ProjectAction::CreateDir {
                        path: p,
                    } && p@ == join_spec(path@, input@))
                },
                _ => {
                    &&& final(self).path == old(self).path
                    &&& final(self).buffer == old(self).buffer
                    &&& actions@.len() == 0
                },
            },
    {
        match event {
            PopupEvent::Confirm(source) => match source {
                ProjectUiEvent::Delete { path } => self.delete(path.as_str()),
                _ => Vec::new(),
            },
            PopupEvent::Prompt(source, input) => match source {
                ProjectUiEvent::NewPart { path } => {
                    let file = part_file(path.as_str(), input.as_str());
                    self.new_file(file)
                },
                ProjectUiEvent::NewFolder { path } => {
                    let folder = join(path.as_str(), input.as_str());
                    self.new_folder(folder)
                },
                _ => Vec::new(),
            },
        }
    }
}

impl Default for Project {
    fn default() -> (project: Self)
        ensures
            !project.fs_open,
            project.path is None,
            project.root@ == Seq::<char>::empty(),
            project.buffer@ == Seq::<char>::empty(),
    {
        Project::new()
    }
}

} // verus!
