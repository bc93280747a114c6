//! The menu bar of the viewer: its top-level menus, the buttons registered
//! under them by `Menu/Action` paths, and the view flags that the menu
//! persists in the settings store.
use vstd::prelude::*;

use crate::settings::Store;
use crate::text::{chars_of, find_char, lemma_find_char_is, scan_for, string_of};

verus! {

/// The menus of the menu bar, in the order in which the bar shows them.
#[derive(Clone, Copy, PartialEq, Eq, Structural, Debug)]
pub enum TopLevelMenu {
    File,
    View,
    Camera,
    Rendering,
    Export,
    Window,
    Help,
}

/// Every menu, in the order of the bar.
pub open spec fn all_menus() -> Seq<TopLevelMenu> {
    seq![
        TopLevelMenu::File,
        TopLevelMenu::View,
        TopLevelMenu::Camera,
        TopLevelMenu::Rendering,
        TopLevelMenu::Export,
        TopLevelMenu::Window,
        TopLevelMenu::Help,
    ]
}

impl TopLevelMenu {
    /// The menu's name, as the bar shows it and as paths write it.
    pub open spec fn label(self) -> Seq<char> {
        match self {
            TopLevelMenu::File => seq!['F', 'i', 'l', 'e'],
            TopLevelMenu::View => seq!['V', 'i', 'e', 'w'],
            TopLevelMenu::Camera => seq!['C', 'a', 'm', 'e', 'r', 'a'],
            TopLevelMenu::Rendering => seq!['R', 'e', 'n', 'd', 'e', 'r', 'i', 'n', 'g'],
            TopLevelMenu::Export => seq!['E', 'x', 'p', 'o', 'r', 't'],
            TopLevelMenu::Window => seq!['W', 'i', 'n', 'd', 'o', 'w'],
            TopLevelMenu::Help => seq!['H', 'e', 'l', 'p'],
        }
    }

    /// The menu's name.
    pub fn name(&self) -> (name: &'static str)
        ensures
            name@ == self.label(),
    {
        match self {
            TopLevelMenu::File => {
                proof {
                    reveal_strlit("File");
                }
                "File"
            },
            TopLevelMenu::View => {
                proof {
                    reveal_strlit("View");
                }
                "View"
            },
            TopLevelMenu::Camera => {
                proof {
                    reveal_strlit("Camera");
                }
                "Camera"
            },
            TopLevelMenu::Rendering => {
                proof {
                    reveal_strlit("Rendering");
                }
                "Rendering"
            },
            TopLevelMenu::Export => {
                proof {
                    reveal_strlit("Export");
                }
                "Export"
            },
            TopLevelMenu::Window => {
                proof {
                    reveal_strlit("Window");
                }
                "Window"
            },
            TopLevelMenu::Help => {
                proof {
                    reveal_strlit("Help");
                }
                "Help"
            },
        }
    }
}

/// The menu whose name is exactly `name` (case matters), if any.
pub open spec fn menu_named(name: Seq<char>) -> Option<TopLevelMenu> {
    if name == TopLevelMenu::File.label() {
        Some(TopLevelMenu::File)
    } else if name == TopLevelMenu::View.label() {
        Some(TopLevelMenu::View)
    } else if name == TopLevelMenu::Camera.label() {
        Some(TopLevelMenu::Camera)
    } else if name == TopLevelMenu::Rendering.label() {
        Some(TopLevelMenu::Rendering)
    } else if name == TopLevelMenu::Export.label() {
        Some(TopLevelMenu::Export)
    } else if name == TopLevelMenu::Window.label() {
        Some(TopLevelMenu::Window)
    } else if name == TopLevelMenu::Help.label() {
        Some(TopLevelMenu::Help)
    } else {
        None
    }
}

/// The menu named `name`, if there is one.
pub fn menu_from_name(name: &str) -> (menu: Option<TopLevelMenu>)
    ensures
        menu == menu_named(name@),
{
    let name = String::from_str(name);
    if name == String::from_str(TopLevelMenu::File.name()) {
        Some(TopLevelMenu::File)
    } else if name == String::from_str(TopLevelMenu::View.name()) {
        Some(TopLevelMenu::View)
    } else if name == String::from_str(TopLevelMenu::Camera.name()) {
        Some(TopLevelMenu::Camera)
    } else if name == String::from_str(TopLevelMenu::Rendering.name()) {
        Some(TopLevelMenu::Rendering)
    } else if name == String::from_str(TopLevelMenu::Export.name()) {
        Some(TopLevelMenu::Export)
    } else if name == String::from_str(TopLevelMenu::Window.name()) {
        Some(TopLevelMenu::Window)
    } else if name == String::from_str(TopLevelMenu::Help.name()) {
        Some(TopLevelMenu::Help)
    } else {
        None
    }
}

/// Why a button path names no button.
#[derive(Clone, Copy, PartialEq, Eq, Structural, Debug)]
pub enum MenuPathError {
    /// The text before the first `/` names no menu.
    UnknownMenu,
    /// The path has no `/`, so no action follows the menu.
    MissingAction,
}

impl MenuPathError {
    /// What the error says.
    pub fn message(&self) -> (message: &'static str)
        ensures
            message@ == match self {
                MenuPathError::UnknownMenu => seq![
                    'u', 'n', 'k', 'n', 'o', 'w', 'n', ' ', 't', 'o', 'p', ' ', 'l', 'e', 'v',
                    'e', 'l', ' ', 'm', 'e', 'n', 'u',
                ],
                MenuPathError::MissingAction => seq![
                    'm', 'e', 'n', 'u', ' ', 'm', 'u', 's', 't', ' ', 'h', 'a', 'v', 'e', ' ',
                    'a', 'c', 't', 'i', 'o', 'n',
                ],
            },
    {
        match self {
            MenuPathError::UnknownMenu => {
                proof {
                    reveal_strlit("unknown top level menu");
                }
                "unknown top level menu"
            },
            MenuPathError::MissingAction => {
                proof {
                    reveal_strlit("menu must have action");
                }
                "menu must have action"
            },
        }
    }
}

/// The button a path `Menu/Action` names: the text before the first `/`
/// is the menu, the text after it up to the next `/` (or the end) the action.
pub open spec fn parse_menu_path(path: Seq<char>) -> Result<
    (TopLevelMenu, Seq<char>),
    MenuPathError,
> {
    let slash = find_char(path, '/', 0);
    match menu_named(path.take(slash)) {
        None => Err(MenuPathError::UnknownMenu),
        Some(menu) => if slash >= path.len() {
            Err(MenuPathError::MissingAction)
        } else {
            Ok((menu, path.subrange(slash + 1, find_char(path, '/', slash + 1))))
        },
    }
}

/// The menu and action of a button path such as `Camera/Focus`.
pub fn menu_path(path: &str) -> (button: Result<(TopLevelMenu, String), MenuPathError>)
    ensures
        match button {
            Ok((menu, action)) => parse_menu_path(path@) == Ok::<
                (TopLevelMenu, Seq<char>),
                MenuPathError,
            >((menu, action@)),
            Err(e) => parse_menu_path(path@) == Err::<(TopLevelMenu, Seq<char>), MenuPathError>(
                e,
            ),
        },
{
    let cs = chars_of(path);
    let n = cs.len();
    let slash = scan_for(&cs, '/', 0, n);
    proof {
        lemma_find_char_is(cs@, '/', 0, slash as int);
        assert(cs@.subrange(0, slash as int) =~= path@.take(slash as int));
    }
    let top = string_of(&cs, 0, slash);
    let menu = match menu_from_name(top.as_str()) {
        Some(menu) => menu,
        None => {
            return Err(MenuPathError::UnknownMenu);
        },
    };
    if slash == n {
        return Err(MenuPathError::MissingAction);
    }
    let end = scan_for(&cs, '/', slash + 1, n);
    proof {
        lemma_find_char_is(cs@, '/', slash + 1, end as int);
    }
    let action = string_of(&cs, slash + 1, end);
    Ok((menu, action))
}

/// The actions under `menu`, in the order in which they were added, of a
/// list of buttons.
pub open spec fn actions_of(buttons: Seq<(TopLevelMenu, Seq<char>)>, menu: TopLevelMenu) -> Seq<
    Seq<char>,
>
    decreases buttons.len(),
{
    if buttons.len() == 0 {
        Seq::empty()
    } else {
        let before = actions_of(buttons.drop_last(), menu);
        if buttons.last().0 == menu {
            before.push(buttons.last().1)
        } else {
            before
        }
    }
}

/// What the bar shows of a list of buttons, for the first `k` menus of the
/// bar: each menu that has an action, with its actions.
pub open spec fn sections_upto(buttons: Seq<(TopLevelMenu, Seq<char>)>, k: nat) -> Seq<
    (TopLevelMenu, Seq<Seq<char>>),
>
    decreases k,
{
    if k == 0 {
        Seq::empty()
    } else {
        let before = sections_upto(buttons, (k - 1) as nat);
        let menu = all_menus()[k - 1];
        let actions = actions_of(buttons, menu);
        if actions.len() > 0 {
            before.push((menu, actions))
        } else {
            before
        }
    }
}

/// What the bar shows of a list of buttons: the menus that have actions, in
/// the order of the bar, each with its actions in the order they were added.
pub open spec fn menu_sections(buttons: Seq<(TopLevelMenu, Seq<char>)>) -> Seq<
    (TopLevelMenu, Seq<Seq<char>>),
> {
    sections_upto(buttons, 7)
}

/// The buttons of the menu bar.
pub struct Menu {
    buttons: Vec<(TopLevelMenu, String)>,
}

impl View for Menu {
    type V = Seq<(TopLevelMenu, Seq<char>)>;

    /// The buttons in the order in which they were added.
    closed spec fn view(&self) -> Seq<(TopLevelMenu, Seq<char>)> {
        self.buttons@.map_values(|b: (TopLevelMenu, String)| (b.0, b.1@))
    }
}

/// The views of a list of strings.
pub open spec fn string_views(v: Seq<String>) -> Seq<Seq<char>> {
    v.map_values(|s: String| s@)
}

impl Menu {
    /// A bar without buttons.
    pub fn new() -> (menu: Self)
        ensures
            menu@ == Seq::<(TopLevelMenu, Seq<char>)>::empty(),
    {
        let menu = Menu { buttons: Vec::new() };
        proof {
            assert(menu@ =~= Seq::<(TopLevelMenu, Seq<char>)>::empty());
        }
        menu
    }

    /// Adds a button for `action` under `menu`, after the ones it has.
    pub fn button(&mut self, menu: TopLevelMenu, action: &str)
        ensures
            final(self)@ == old(self)@.push((menu, action@)),
    {
        self.buttons.push((menu, String::from_str(action)));
        proof {
            assert(final(self)@ =~= old(self)@.push((menu, action@)));
        }
    }

    /// The actions under `menu` of the buttons of `self`.
    fn collect_actions(&self, menu: TopLevelMenu) -> (actions: Vec<String>)
        ensures
            string_views(actions@) == actions_of(self@, menu),
    {
        let mut actions: Vec<String> = Vec::new();
        let mut j: usize = 0;
        while j < self.buttons.len()
            invariant
                j <= self.buttons.len(),
                string_views(actions@) == actions_of(self@.take(j as int), menu),
            decreases self.buttons.len() - j,
        {
            proof {
                assert(self@.take(j + 1).drop_last() =~= self@.take(j as int));
            }
            if self.buttons[j].0 == menu {
                actions.push(self.buttons[j].1.clone());
                proof {
                    assert(string_views(actions@) =~= actions_of(self@.take(j as int), menu).push(
                        self@[j as int].1,
                    ));
                }
            }
            j += 1;
        }
        proof {
            assert(self@.take(self.buttons.len() as int) =~= self@);
        }
        actions
    }

    /// What the bar shows: the menus that have buttons, in the order of the
    /// bar, each with its actions in the order in which they were added.
    pub fn sections(&self) -> (sections: Vec<(TopLevelMenu, Vec<String>)>)
        ensures
            sections@.len() == menu_sections(self@).len(),
            forall|i: int|
                0 <= i < sections@.len() ==> (#[trigger] sections@[i]).0 == menu_sections(
                    self@,
                )[i].0 && string_views(sections@[i].1@) == menu_sections(self@)[i].1,
    {
        let menus = [
            TopLevelMenu::File,
            TopLevelMenu::View,
            TopLevelMenu::Camera,
            TopLevelMenu::Rendering,
            TopLevelMenu::Export,
            TopLevelMenu::Window,
            TopLevelMenu::Help,
        ];
        proof {
            assert(menus@ =~= all_menus());
        }
        let mut sections: Vec<(TopLevelMenu, Vec<String>)> = Vec::new();
        let mut k: usize = 0;
        while k < 7
            invariant
                k <= 7,
                menus@ == all_menus(),
                sections@.len() == sections_upto(self@, k as nat).len(),
                forall|i: int|
                    0 <= i < sections@.len() ==> (#[trigger] sections@[i]).0 == sections_upto(
                        self@,
                        k as nat,
                    )[i].0 && string_views(sections@[i].1@) == sections_upto(self@, k as nat)[i].1,
            decreases 7 - k,
        {
            let menu = menus[k];
            let actions = self.collect_actions(menu);
            if actions.len() > 0 {
                sections.push((menu, actions));
            }
            k += 1;
        }
        sections
    }
}

impl Default for Menu {
    fn default() -> (menu: Self)
        ensures
            menu@ == Seq::<(TopLevelMenu, Seq<char>)>::empty(),
    {
        Menu::new()
    }
}

/// The text a flag is stored as.
pub open spec fn flag_label(on: bool) -> Seq<char> {
    if on {
        seq!['t', 'r', 'u', 'e']
    } else {
        seq!['f', 'a', 'l', 's', 'e']
    }
}

/// The text a flag is stored as.
pub fn flag_text(on: bool) -> (text: &'static str)
    ensures
        text@ == flag_label(on),
{
    if on {
        proof {
            reveal_strlit("true");
        }
        "true"
    } else {
        proof {
            reveal_strlit("false");
        }
        "false"
    }
}

/// A flag read back from its stored text: on exactly where the text is
/// `true`; `default` where nothing is stored.
pub open spec fn stored_flag(stored: Option<Seq<char>>, default: bool) -> bool {
    match stored {
        Some(text) => text == flag_label(true),
        None => default,
    }
}

/// A flag read back from its stored text, if any.
pub fn flag_from(stored: Option<&str>, default: bool) -> (on: bool)
    ensures
        on == stored_flag(
            match stored {
                Some(text) => Some(text@),
                None => None,
            },
            default,
        ),
{
    match stored {
        Some(text) => String::from_str(text) == String::from_str(flag_text(true)),
        None => default,
    }
}

/// The value a store holds under `key`, if any.
pub open spec fn stored_value(values: Map<Seq<char>, Seq<char>>, key: Seq<char>) -> Option<
    Seq<char>,
> {
    if values.contains_key(key) {
        Some(values[key])
    } else {
        None
    }
}

/// The view settings that the menu persists.
#[derive(Clone, Copy, PartialEq, Eq, Structural, Debug)]
pub enum ViewFlag {
    Points,
    Lines,
    Mesh,
    PartColors,
}

impl ViewFlag {
    /// The key the flag is stored under.
    pub open spec fn key_label(self) -> Seq<char> {
        match self {
            ViewFlag::Points => seq!['p', 'o', 'i', 'n', 't', 's'],
            ViewFlag::Lines => seq!['l', 'i', 'n', 'e', 's'],
            ViewFlag::Mesh => seq!['m', 'e', 's', 'h'],
            ViewFlag::PartColors => seq!['c', 'o', 'l', 'o', 'r', 's'],
        }
    }

    /// Whether the flag is on where the store holds nothing for it.
    pub open spec fn default_on(self) -> bool {
        !(self is PartColors)
    }

    /// The key the flag is stored under.
    pub fn key(&self) -> (key: &'static str)
        ensures
            key@ == self.key_label(),
    {
        match self {
            ViewFlag::Points => {
                proof {
                    reveal_strlit("points");
                }
                "points"
            },
            ViewFlag::Lines => {
                proof {
                    reveal_strlit("lines");
                }
                "lines"
            },
            ViewFlag::Mesh => {
                proof {
                    reveal_strlit("mesh");
                }
                "mesh"
            },
            ViewFlag::PartColors => {
                proof {
                    reveal_strlit("colors");
                }
                "colors"
            },
        }
    }
}

/// What the viewer draws: points, lines, the mesh, the grid, and whether
/// each part gets a color of its own.
#[derive(Clone, Copy, PartialEq, Eq, Structural, Debug)]
pub struct ViewFlags {
    pub show_points: bool,
    pub show_lines: bool,
    pub show_mesh: bool,
    pub show_grid: bool,
    pub part_colors: bool,
}

impl ViewFlags {
    /// The setting of a persisted flag.
    pub open spec fn flag(self, flag: ViewFlag) -> bool {
        match flag {
            ViewFlag::Points => self.show_points,
            ViewFlag::Lines => self.show_lines,
            ViewFlag::Mesh => self.show_mesh,
            ViewFlag::PartColors => self.part_colors,
        }
    }

    /// Everything drawn, in one color.
    pub fn new() -> (flags: Self)
        ensures
            forall|f: ViewFlag| #[trigger] flags.flag(f) == f.default_on(),
            flags.show_grid,
    {
        ViewFlags {
            show_points: true,
            show_lines: true,
            show_mesh: true,
            show_grid: true,
            part_colors: false,
        }
    }

    /// The persisted flag `flag` as `store` holds it.
    fn load_flag<S: Store>(store: &S, flag: ViewFlag) -> (on: bool)
        ensures
            on == stored_flag(stored_value(store.values(), flag.key_label()), flag.default_on()),
    {
        let default = match flag {
            ViewFlag::PartColors => false,
            _ => true,
        };
        flag_from(store.load(flag.key()), default)
    }

    /// The flags as `store` holds them; the grid is drawn.
    pub fn load<S: Store>(store: &S) -> (flags: Self)
        ensures
            forall|f: ViewFlag|
                #[trigger] flags.flag(f) == stored_flag(
                    stored_value(store.values(), f.key_label()),
                    f.default_on(),
                ),
            flags.show_grid,
    {
        ViewFlags {
            show_points: Self::load_flag(store, ViewFlag::Points),
            show_lines: Self::load_flag(store, ViewFlag::Lines),
            show_mesh: Self::load_flag(store, ViewFlag::Mesh),
            show_grid: true,
            part_colors: Self::load_flag(store, ViewFlag::PartColors),
        }
    }

    /// Turns `flag` over and stores its new setting.
    pub fn toggle<S: Store>(&mut self, flag: ViewFlag, store: &mut S)
        ensures
            final(self).flag(flag) == !old(self).flag(flag),
            forall|f: ViewFlag| f != flag ==> #[trigger] final(self).flag(f) == old(self).flag(f),
            final(self).show_grid == old(self).show_grid,
            final(store).values() == old(store).values().insert(
                flag.key_label(),
                flag_label(final(self).flag(flag)),
            ),
    {
        let on = match flag {
            ViewFlag::Points => {
                self.show_points = !self.show_points;
                self.show_points
            },
            ViewFlag::Lines => {
                self.show_lines = !self.show_lines;
                self.show_lines
            },
            ViewFlag::Mesh => {
                self.show_mesh = !self.show_mesh;
                self.show_mesh
            },
            ViewFlag::PartColors => {
                self.part_colors = !self.part_colors;
                self.part_colors
            },
        };
        store.store(flag.key(), flag_text(on));
    }
}

impl Default for ViewFlags {
    fn default() -> (flags: Self)
        ensures
            forall|f: ViewFlag| #[trigger] flags.flag(f) == f.default_on(),
            flags.show_grid,
    {
        ViewFlags::new()
    }
}

/// A flag that was toggled and stored is read back as it was left, whatever
/// the store held before and whatever its default.
pub proof fn lemma_toggled_flag_reloads(values: Map<Seq<char>, Seq<char>>, flag: ViewFlag, on: bool)
    ensures
        stored_flag(
            stored_value(values.insert(flag.key_label(), flag_label(on)), flag.key_label()),
            flag.default_on(),
        ) == on,
{
    if !on {
        assert(flag_label(false)[0] != flag_label(true)[0]);
    }
}

/// Each menu's name reads back as that menu.
pub proof fn lemma_menu_names(menu: TopLevelMenu)
    ensures
        menu_named(menu.label()) == Some(menu),
{
    assert(TopLevelMenu::File.label()[0] == 'F');
    assert(TopLevelMenu::View.label()[0] == 'V');
    assert(TopLevelMenu::Camera.label()[0] == 'C');
    assert(TopLevelMenu::Rendering.label()[0] == 'R');
    assert(TopLevelMenu::Export.label()[0] == 'E');
    assert(TopLevelMenu::Window.label()[0] == 'W');
    assert(TopLevelMenu::Help.label()[0] == 'H');
}

/// A button added under `menu` is the last action of `menu`; the actions of
/// every other menu stay as they were.
pub proof fn lemma_button_adds_action(
    buttons: Seq<(TopLevelMenu, Seq<char>)>,
    menu: TopLevelMenu,
    action: Seq<char>,
    other: TopLevelMenu,
)
    ensures
        actions_of(buttons.push((menu, action)), menu) == actions_of(buttons, menu).push(action),
        other != menu ==> actions_of(buttons.push((menu, action)), other) == actions_of(
            buttons,
            other,
        ),
{
    assert(buttons.push((menu, action)).drop_last() =~= buttons);
}

/// The place of a menu in the bar, counted from the left.
pub open spec fn bar_position(menu: TopLevelMenu) -> int {
    match menu {
        TopLevelMenu::File => 0,
        TopLevelMenu::View => 1,
        TopLevelMenu::Camera => 2,
        TopLevelMenu::Rendering => 3,
        TopLevelMenu::Export => 4,
        TopLevelMenu::Window => 5,
        TopLevelMenu::Help => 6,
    }
}

proof fn lemma_all_menus_positions(k: int)
    requires
        0 <= k < 7,
    ensures
        all_menus().len() == 7,
        bar_position(all_menus()[k]) == k,
{
    if k == 0 {
    } else if k == 1 {
    } else if k == 2 {
    } else if k == 3 {
    } else if k == 4 {
    } else if k == 5 {
    } else {
    }
}

/// What the bar shows for its first `k` menus.
proof fn lemma_sections_upto(buttons: Seq<(TopLevelMenu, Seq<char>)>, k: nat)
    requires
        k <= 7,
    ensures
        ({
            let s = sections_upto(buttons, k);
            &&& forall|i: int|
                0 <= i < s.len() ==> (#[trigger] s[i]).1 == actions_of(buttons, s[i].0)
                    && s[i].1.len() > 0 && bar_position(s[i].0) < k
            &&& forall|i: int, j: int|
                0 <= i < j < s.len() ==> bar_position((#[trigger] s[i]).0) < bar_position(
                    (#[trigger] s[j]).0,
                )
            &&& forall|m: TopLevelMenu|
                bar_position(m) < k && (#[trigger] actions_of(buttons, m)).len() > 0 ==> exists|
                    i: int,
                | 0 <= i < s.len() && (#[trigger] s[i]).0 == m
        }),
    decreases k,
{
    if k > 0 {
        lemma_sections_upto(buttons, (k - 1) as nat);
        lemma_all_menus_positions(k - 1);
        let before = sections_upto(buttons, (k - 1) as nat);
        let menu = all_menus()[k - 1];
        let s = sections_upto(buttons, k);
        assert forall|m: TopLevelMenu|
            bar_position(m) < k && (#[trigger] actions_of(buttons, m)).len() > 0 implies exists|
                i: int,
            | 0 <= i < s.len() && (#[trigger] s[i]).0 == m by {
            if bar_position(m) < k - 1 {
                let i = choose|i: int| 0 <= i < before.len() && (#[trigger] before[i]).0 == m;
                assert(s[i] == before[i]);
            } else {
                assert(m == menu);
                assert(s[before.len() as int].0 == m);
            }
        }
    }
}

/// The bar shows each menu that has buttons exactly once, with all its
/// actions, and the menus in the order of the bar: so no menu with buttons
/// is missing, none is shown twice, and none without buttons is shown.
pub proof fn lemma_sections_show_each_menu_once(buttons: Seq<(TopLevelMenu, Seq<char>)>)
    ensures
        ({
            let s = menu_sections(buttons);
            &&& forall|i: int|
                0 <= i < s.len() ==> (#[trigger] s[i]).1 == actions_of(buttons, s[i].0)
                    && s[i].1.len() > 0
            &&& forall|i: int, j: int|
                0 <= i < j < s.len() ==> bar_position((#[trigger] s[i]).0) < bar_position(
                    (#[trigger] s[j]).0,
                )
            &&& forall|m: TopLevelMenu|
                (#[trigger] actions_of(buttons, m)).len() > 0 ==> exists|i: int|
                    0 <= i < s.len() && (#[trigger] s[i]).0 == m
        }),
{
    lemma_sections_upto(buttons, 7);
    let s = menu_sections(buttons);
    assert forall|m: TopLevelMenu|
        (#[trigger] actions_of(buttons, m)).len() > 0 implies exists|i: int|
            0 <= i < s.len() && (#[trigger] s[i]).0 == m by {
        assert(bar_position(m) < 7);
    }
}

} // verus!
