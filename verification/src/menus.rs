//! The level menu, the pause menu, the options and changelog screens: which screen is shown,
//! where each cursor stands, and what a key does. The effects outside this state (loading a
//! level, stopping sounds, releasing the held keys) are returned for the caller to perform.
use vstd::prelude::*;

use crate::chunk::strings_view;
use crate::difficulty::{spec_from_index, spec_index, Difficulty, DIFFICULTY_COUNT};
use crate::kinds::{GameKey, Key};
use crate::progression::{
    chapter, layer_levels, chapter_level, chapter_level_count, custom_level_indices, find_level_by_code, level_code,
    flatten, spec_chapter_layers, spec_chapter_levels, spec_custom_level_indices, spec_find_level_by_code,
    spec_level_code, CHAPTER_COUNT, CUSTOM_LEVELS_CHAPTER_INDEX,
};

verus! {

/// What the game shows.
#[derive(Clone, Copy, Debug, PartialEq, Eq, Structural)]
pub enum AppMode {
    Playing,
    Pause,
    LevelMenu,
    Changelog,
    Options,
    Editor,
}

/// The screens of the level menu.
#[derive(Clone, Copy, Debug, PartialEq, Eq, Structural)]
pub enum MenuScreen {
    Main,
    Difficulty,
    Chapter,
    Layer,
}

/// The last entry of the main menu.
pub const MAIN_MENU_LAST: usize = 3;

/// The entries of the pause menu: resume, restart from the checkpoint, restart the level,
/// options, back to the level menu.
pub const PAUSE_ACTION_COUNT: usize = 5;

/// The state of the menus.
#[derive(Clone, Copy, Debug, PartialEq, Eq, Structural)]
pub struct MenuState {
    pub mode: AppMode,
    pub menu_screen: MenuScreen,
    pub main_menu_cursor: usize,
    pub selected_difficulty: Difficulty,
    pub difficulty_cursor: usize,
    pub chapter_cursor: usize,
    pub level_cursor: usize,
    pub current_level: usize,
    pub pause_cursor: usize,
    pub pause_keyboard_focus: bool,
    pub options_return_to_pause: bool,
    pub binding_capture: Option<GameKey>,
}

/// What the caller does after a key of the level menu.
#[derive(Clone, Copy, Debug, PartialEq, Eq, Structural)]
pub enum MenuEffect {
    Nothing,
    /// Open the level `current_level` names.
    OpenLevel,
    /// Make a new level of the player's own.
    CreateCustomLevel,
}

/// An entry of the pause menu that was chosen.
#[derive(Clone, Copy, Debug, PartialEq, Eq, Structural)]
pub enum PauseAction {
    Resume,
    RestartFromCheckpoint,
    RestartLevel,
    Options,
    LevelMenu,
}

/// What the caller does after a key of the options screen.
#[derive(Clone, Copy, Debug, PartialEq, Eq, Structural)]
pub enum OptionsEffect {
    Nothing,
    /// Bind the key just pressed to this game key.
    Bind(GameKey),
    /// The options screen was closed.
    Closed,
}

pub open spec fn is_up(k: Key) -> bool {
    k == Key::ArrowUp || k == Key::KeyW
}

pub open spec fn is_down(k: Key) -> bool {
    k == Key::ArrowDown || k == Key::KeyS
}

pub open spec fn is_left(k: Key) -> bool {
    k == Key::ArrowLeft || k == Key::KeyA
}

pub open spec fn is_right(k: Key) -> bool {
    k == Key::ArrowRight || k == Key::KeyD
}

pub open spec fn is_back(k: Key) -> bool {
    k == Key::Escape || k == Key::Backspace
}

pub open spec fn is_confirm(k: Key) -> bool {
    k == Key::Enter || k == Key::Space
}

pub open spec fn min(a: int, b: int) -> int {
    if a < b {
        a
    } else {
        b
    }
}

pub open spec fn saturating_sub(a: int, b: int) -> int {
    if a > b {
        a - b
    } else {
        0
    }
}

/// The entries the layer screen of a chapter shows: a chapter's levels, or, for the chapter of
/// the player's own levels, one entry to make a new level and one per such level.
pub open spec fn spec_menu_level_count(chapter_cursor: int, names: Seq<Seq<char>>) -> int {
    if chapter_cursor == CUSTOM_LEVELS_CHAPTER_INDEX {
        spec_custom_level_indices(names).len() + 1int
    } else {
        spec_chapter_levels(chapter_cursor).len() as int
    }
}

/// The cursor on the entries of the layer screen within them.
pub open spec fn level_cursor_in_bounds(s: MenuState, names: Seq<Seq<char>>) -> bool {
    let count = spec_menu_level_count(s.chapter_cursor as int, names);
    &&& (count == 0 ==> s.level_cursor == 0)
    &&& (count > 0 ==> s.level_cursor < count)
}

/// Every cursor within its menu; the cursor of the layer screen while that screen is shown.
pub open spec fn cursors_in_bounds(s: MenuState, names: Seq<Seq<char>>) -> bool {
    &&& s.main_menu_cursor <= MAIN_MENU_LAST
    &&& s.difficulty_cursor < DIFFICULTY_COUNT
    &&& s.chapter_cursor < CHAPTER_COUNT
    &&& (s.menu_screen == MenuScreen::Layer ==> level_cursor_in_bounds(s, names))
}

/// The cursors brought back within their menus.
pub open spec fn clamped(s: MenuState, names: Seq<Seq<char>>) -> MenuState {
    let chapter = min(s.chapter_cursor as int, CHAPTER_COUNT - 1);
    let count = spec_menu_level_count(chapter, names);
    MenuState {
        main_menu_cursor: min(s.main_menu_cursor as int, MAIN_MENU_LAST as int) as usize,
        difficulty_cursor: min(s.difficulty_cursor as int, DIFFICULTY_COUNT - 1) as usize,
        chapter_cursor: chapter as usize,
        level_cursor: if count == 0 {
            0
        } else {
            min(s.level_cursor as int, count - 1) as usize
        },
        ..s
    }
}

/// One screen back: the main screen stays.
pub open spec fn back_screen(screen: MenuScreen) -> MenuScreen {
    match screen {
        MenuScreen::Main => MenuScreen::Main,
        MenuScreen::Difficulty => MenuScreen::Main,
        MenuScreen::Chapter => MenuScreen::Difficulty,
        MenuScreen::Layer => MenuScreen::Chapter,
    }
}

/// Choosing a difficulty: an available one opens its chapters, from the first.
pub open spec fn spec_select_difficulty(s: MenuState, index: int) -> MenuState {
    if 0 <= index < DIFFICULTY_COUNT && !(spec_from_index(index) is UltrakillMustDie) {
        MenuState {
            selected_difficulty: spec_from_index(index),
            difficulty_cursor: index as usize,
            chapter_cursor: 0,
            level_cursor: 0,
            menu_screen: MenuScreen::Chapter,
            ..s
        }
    } else {
        s
    }
}

/// Choosing a chapter: its layer screen opens, from the first entry, unless it has no levels
/// and is not the chapter of the player's own levels.
pub open spec fn spec_select_chapter(s: MenuState, index: int) -> MenuState {
    if 0 <= index < CHAPTER_COUNT {
        let t = MenuState { chapter_cursor: index as usize, level_cursor: 0, ..s };
        if spec_chapter_layers(index).len() == 0 && index != CUSTOM_LEVELS_CHAPTER_INDEX {
            t
        } else {
            MenuState { menu_screen: MenuScreen::Layer, ..t }
        }
    } else {
        s
    }
}

pub open spec fn main_menu_key(s: MenuState, key: Key) -> MenuState {
    if is_up(key) {
        MenuState { main_menu_cursor: saturating_sub(s.main_menu_cursor as int, 1) as usize, ..s }
    } else if is_down(key) {
        MenuState { main_menu_cursor: min(s.main_menu_cursor + 1, MAIN_MENU_LAST as int) as usize, ..s }
    } else if is_confirm(key) {
        if s.main_menu_cursor == 0 {
            MenuState { menu_screen: MenuScreen::Difficulty, ..s }
        } else if s.main_menu_cursor == 1 {
            MenuState { options_return_to_pause: false, mode: AppMode::Options, ..s }
        } else if s.main_menu_cursor == 2 {
            MenuState { mode: AppMode::Changelog, ..s }
        } else {
            s
        }
    } else {
        s
    }
}

pub open spec fn difficulty_menu_key(s: MenuState, key: Key) -> MenuState {
    if is_up(key) {
        MenuState { difficulty_cursor: saturating_sub(s.difficulty_cursor as int, 1) as usize, ..s }
    } else if is_down(key) {
        MenuState { difficulty_cursor: min(s.difficulty_cursor + 1, DIFFICULTY_COUNT - 1) as usize, ..s }
    } else if is_back(key) {
        MenuState { menu_screen: back_screen(s.menu_screen), ..s }
    } else if is_confirm(key) {
        spec_select_difficulty(s, s.difficulty_cursor as int)
    } else {
        s
    }
}

pub open spec fn chapter_menu_key(s: MenuState, key: Key) -> MenuState {
    if is_up(key) {
        MenuState { chapter_cursor: saturating_sub(s.chapter_cursor as int, 1) as usize, ..s }
    } else if is_down(key) {
        MenuState { chapter_cursor: min(s.chapter_cursor + 1, CHAPTER_COUNT - 1) as usize, ..s }
    } else if is_back(key) {
        MenuState { menu_screen: back_screen(s.menu_screen), ..s }
    } else if is_confirm(key) {
        spec_select_chapter(s, s.chapter_cursor as int)
    } else {
        s
    }
}

/// The level the selected entry of the layer screen names: a level of the player's own by its
/// place among them, or the first level whose code is the selected level's.
pub open spec fn spec_selected_catalog_level(s: MenuState, names: Seq<Seq<char>>) -> Option<int> {
    if s.chapter_cursor == CUSTOM_LEVELS_CHAPTER_INDEX {
        let custom = spec_custom_level_indices(names);
        if s.level_cursor >= 1 && s.level_cursor - 1 < custom.len() {
            Some(custom[s.level_cursor - 1] as int)
        } else {
            None
        }
    } else {
        let levels = spec_chapter_levels(s.chapter_cursor as int);
        if s.level_cursor < levels.len() {
            spec_find_level_by_code(names, levels[s.level_cursor as int].code@)
        } else {
            None
        }
    }
}

pub open spec fn layer_menu_key(s: MenuState, key: Key, names: Seq<Seq<char>>) -> (MenuState, MenuEffect) {
    let count = spec_menu_level_count(s.chapter_cursor as int, names);
    if count == 0 {
        if is_back(key) {
            (MenuState { menu_screen: back_screen(s.menu_screen), ..s }, MenuEffect::Nothing)
        } else {
            (s, MenuEffect::Nothing)
        }
    } else if is_left(key) {
        (MenuState { level_cursor: saturating_sub(s.level_cursor as int, 1) as usize, ..s }, MenuEffect::Nothing)
    } else if is_right(key) {
        (MenuState { level_cursor: min(s.level_cursor + 1, count - 1) as usize, ..s }, MenuEffect::Nothing)
    } else if is_up(key) {
        (MenuState { level_cursor: saturating_sub(s.level_cursor as int, 4) as usize, ..s }, MenuEffect::Nothing)
    } else if is_down(key) {
        (MenuState { level_cursor: min(s.level_cursor + 4, count - 1) as usize, ..s }, MenuEffect::Nothing)
    } else if is_back(key) {
        (MenuState { menu_screen: back_screen(s.menu_screen), ..s }, MenuEffect::Nothing)
    } else if is_confirm(key) {
        if s.chapter_cursor == CUSTOM_LEVELS_CHAPTER_INDEX && s.level_cursor == 0 {
            (s, MenuEffect::CreateCustomLevel)
        } else {
            match spec_selected_catalog_level(s, names) {
                Some(i) => (MenuState { current_level: i as usize, ..s }, MenuEffect::OpenLevel),
                None => (s, MenuEffect::Nothing),
            }
        }
    } else {
        (s, MenuEffect::Nothing)
    }
}

/// A key on the level menu: the cursors are first brought back within their menus, then the
/// key acts on the screen shown.
pub open spec fn spec_menu_key(s: MenuState, key: Key, names: Seq<Seq<char>>) -> (MenuState, MenuEffect) {
    let c = clamped(s, names);
    match c.menu_screen {
        MenuScreen::Main => (main_menu_key(c, key), MenuEffect::Nothing),
        MenuScreen::Difficulty => (difficulty_menu_key(c, key), MenuEffect::Nothing),
        MenuScreen::Chapter => (chapter_menu_key(c, key), MenuEffect::Nothing),
        MenuScreen::Layer => layer_menu_key(c, key, names),
    }
}

proof fn lemma_custom_count(names: Seq<Seq<char>>)
    ensures
        spec_custom_level_indices(names).len() <= names.len(),
        forall|j: int| 0 <= j < spec_custom_level_indices(names).len() ==> (#[trigger] spec_custom_level_indices(names)[j]) < names.len(),
    decreases names.len(),
{
    if names.len() > 0 {
        lemma_custom_count(names.drop_last());
        let prev = spec_custom_level_indices(names.drop_last());
        let cur = spec_custom_level_indices(names);
        assert forall|j: int| 0 <= j < cur.len() implies (#[trigger] cur[j]) < names.len() by {
            if j < prev.len() {
                assert(cur[j] == prev[j]);
            }
        }
    }
}

proof fn lemma_chapter_levels_small(c: int)
    ensures
        spec_chapter_levels(c).len() <= 15,
        4 <= c < CHAPTER_COUNT ==> spec_chapter_levels(c).len() == 0,
        0 <= c < 4 ==> spec_chapter_levels(c).len() > 0,
{
    reveal_with_fuel(flatten, 4);
    if c == 0 {
        let ls = spec_chapter_layers(0);
        assert(ls.len() == 1);
        assert(ls.drop_last().len() == 0);
        assert(flatten(ls) == flatten(ls.drop_last()) + ls.last());
    } else if c == 1 || c == 2 || c == 3 {
        let ls = spec_chapter_layers(c);
        assert(ls.len() == 3);
        assert(ls[0].len() == 4 && ls[1].len() == 4 && ls[2].len() == 2);
        assert(ls.drop_last().drop_last().drop_last().len() == 0);
        assert(ls.drop_last().last() == ls[1]);
        assert(ls.drop_last().drop_last().last() == ls[0]);
        assert(flatten(ls).len() == 10);
    }
}

// ---------------------------------------------------------------------------
// Executable menus.

fn key_is_up(k: Key) -> (b: bool)
    ensures
        b == is_up(k),
{
    k == Key::ArrowUp || k == Key::KeyW
}

fn key_is_down(k: Key) -> (b: bool)
    ensures
        b == is_down(k),
{
    k == Key::ArrowDown || k == Key::KeyS
}

fn key_is_left(k: Key) -> (b: bool)
    ensures
        b == is_left(k),
{
    k == Key::ArrowLeft || k == Key::KeyA
}

fn key_is_right(k: Key) -> (b: bool)
    ensures
        b == is_right(k),
{
    k == Key::ArrowRight || k == Key::KeyD
}

fn key_is_back(k: Key) -> (b: bool)
    ensures
        b == is_back(k),
{
    k == Key::Escape || k == Key::Backspace
}

fn key_is_confirm(k: Key) -> (b: bool)
    ensures
        b == is_confirm(k),
{
    k == Key::Enter || k == Key::Space
}

/// The number of entries of the layer screen of chapter `chapter_cursor`.
pub fn menu_level_count(chapter_cursor: usize, names: &[String]) -> (n: usize)
    requires
        names@.len() < usize::MAX,
    ensures
        n == spec_menu_level_count(chapter_cursor as int, strings_view(names@)),
{
    if chapter_cursor == CUSTOM_LEVELS_CHAPTER_INDEX {
        let c = custom_level_indices(names);
        proof {
            lemma_custom_count(strings_view(names@));
        }
        c.len() + 1
    } else {
        chapter_level_count(chapter_cursor)
    }
}

impl MenuState {
    /// The state the game starts in: the main screen of the level menu, the standard
    /// difficulty chosen.
    pub fn new() -> (s: MenuState)
        ensures
            s.mode == AppMode::LevelMenu,
            s.menu_screen == MenuScreen::Main,
            s.main_menu_cursor == 0,
            s.selected_difficulty == Difficulty::Standard,
            s.difficulty_cursor == 2,
            s.chapter_cursor == 0 && s.level_cursor == 0 && s.current_level == 0,
            s.pause_cursor == 0 && !s.pause_keyboard_focus,
            !s.options_return_to_pause,
            s.binding_capture is None,
    {
        MenuState {
            mode: AppMode::LevelMenu,
            menu_screen: MenuScreen::Main,
            main_menu_cursor: 0,
            selected_difficulty: Difficulty::Standard,
            difficulty_cursor: Difficulty::Standard.index(),
            chapter_cursor: 0,
            level_cursor: 0,
            current_level: 0,
            pause_cursor: 0,
            pause_keyboard_focus: false,
            options_return_to_pause: false,
            binding_capture: None,
        }
    }

    /// Brings every cursor back within its menu.
    pub fn clamp_menu_cursors(&mut self, names: &[String])
        requires
            names@.len() < usize::MAX,
        ensures
            *final(self) == clamped(*old(self), strings_view(names@)),
    {
        if self.main_menu_cursor > MAIN_MENU_LAST {
            self.main_menu_cursor = MAIN_MENU_LAST;
        }
        if self.difficulty_cursor > DIFFICULTY_COUNT - 1 {
            self.difficulty_cursor = DIFFICULTY_COUNT - 1;
        }
        if self.chapter_cursor > CHAPTER_COUNT - 1 {
            self.chapter_cursor = CHAPTER_COUNT - 1;
        }
        let count = menu_level_count(self.chapter_cursor, names);
        if count == 0 {
            self.level_cursor = 0;
        } else if self.level_cursor > count - 1 {
            self.level_cursor = count - 1;
        }
    }

    /// One screen back.
    pub fn menu_back(&mut self)
        ensures
            *final(self) == (MenuState { menu_screen: back_screen(old(self).menu_screen), ..*old(self) }),
    {
        self.menu_screen = match self.menu_screen {
            MenuScreen::Main => MenuScreen::Main,
            MenuScreen::Difficulty => MenuScreen::Main,
            MenuScreen::Chapter => MenuScreen::Difficulty,
            MenuScreen::Layer => MenuScreen::Chapter,
        };
    }

    pub fn select_difficulty(&mut self, index: usize)
        ensures
            *final(self) == spec_select_difficulty(*old(self), index as int),
    {
        let difficulty = match Difficulty::from_index(index) {
            Some(d) => d,
            None => return,
        };
        if !difficulty.available() {
            return;
        }
        self.selected_difficulty = difficulty;
        self.difficulty_cursor = index;
        self.chapter_cursor = 0;
        self.level_cursor = 0;
        self.menu_screen = MenuScreen::Chapter;
    }

    pub fn select_chapter(&mut self, index: usize)
        ensures
            *final(self) == spec_select_chapter(*old(self), index as int),
    {
        let ch = match chapter(index) {
            Some(ch) => ch,
            None => return,
        };
        assert(ch.layers@.len() == layer_levels(ch.layers@).len());
        self.chapter_cursor = index;
        self.level_cursor = 0;
        if ch.layers.len() == 0 && index != CUSTOM_LEVELS_CHAPTER_INDEX {
            return;
        }
        self.menu_screen = MenuScreen::Layer;
    }

    /// The level the selected entry of the layer screen names.
    pub fn selected_catalog_level_index(&self, names: &[String]) -> (res: Option<usize>)
        ensures
            match spec_selected_catalog_level(*self, strings_view(names@)) {
                Some(i) => res == Some(i as usize),
                None => res is None,
            },
    {
        if self.chapter_cursor == CUSTOM_LEVELS_CHAPTER_INDEX {
            if self.level_cursor == 0 {
                return None;
            }
            let custom = custom_level_indices(names);
            let k = self.level_cursor - 1;
            if k < custom.len() {
                Some(custom[k])
            } else {
                None
            }
        } else {
            match chapter_level(self.chapter_cursor, self.level_cursor) {
                Some(level) => find_level_by_code(names, level.code),
                None => None,
            }
        }
    }

    fn main_menu_step(&mut self, key: Key)
        ensures
            *final(self) == main_menu_key(*old(self), key),
    {
        if key_is_up(key) {
            if self.main_menu_cursor > 0 {
                self.main_menu_cursor = self.main_menu_cursor - 1;
            }
        } else if key_is_down(key) {
            if self.main_menu_cursor < MAIN_MENU_LAST {
                self.main_menu_cursor = self.main_menu_cursor + 1;
            } else {
                self.main_menu_cursor = MAIN_MENU_LAST;
            }
        } else if key_is_confirm(key) {
            if self.main_menu_cursor == 0 {
                self.menu_screen = MenuScreen::Difficulty;
            } else if self.main_menu_cursor == 1 {
                self.options_return_to_pause = false;
                self.mode = AppMode::Options;
            } else if self.main_menu_cursor == 2 {
                self.mode = AppMode::Changelog;
            }
        }
    }

    fn difficulty_step(&mut self, key: Key)
        ensures
            *final(self) == difficulty_menu_key(*old(self), key),
    {
        if key_is_up(key) {
            if self.difficulty_cursor > 0 {
                self.difficulty_cursor = self.difficulty_cursor - 1;
            }
        } else if key_is_down(key) {
            if self.difficulty_cursor < DIFFICULTY_COUNT - 1 {
                self.difficulty_cursor = self.difficulty_cursor + 1;
            } else {
                self.difficulty_cursor = DIFFICULTY_COUNT - 1;
            }
        } else if key_is_back(key) {
            self.menu_back();
        } else if key_is_confirm(key) {
            let index = self.difficulty_cursor;
            self.select_difficulty(index);
        }
    }

    fn chapter_step(&mut self, key: Key)
        ensures
            *final(self) == chapter_menu_key(*old(self), key),
    {
        if key_is_up(key) {
            if self.chapter_cursor > 0 {
                self.chapter_cursor = self.chapter_cursor - 1;
            }
        } else if key_is_down(key) {
            if self.chapter_cursor < CHAPTER_COUNT - 1 {
                self.chapter_cursor = self.chapter_cursor + 1;
            } else {
                self.chapter_cursor = CHAPTER_COUNT - 1;
            }
        } else if key_is_back(key) {
            self.menu_back();
        } else if key_is_confirm(key) {
            let index = self.chapter_cursor;
            self.select_chapter(index);
        }
    }

    fn layer_step(&mut self, key: Key, names: &[String]) -> (effect: MenuEffect)
        requires
            names@.len() < usize::MAX,
            old(self).level_cursor < spec_menu_level_count(old(self).chapter_cursor as int, strings_view(names@))
                || spec_menu_level_count(old(self).chapter_cursor as int, strings_view(names@)) == 0,
        ensures
            (*final(self), effect) == layer_menu_key(*old(self), key, strings_view(names@)),
    {
        let count = menu_level_count(self.chapter_cursor, names);
        if count == 0 {
            if key_is_back(key) {
                self.menu_back();
            }
            return MenuEffect::Nothing;
        }
        if key_is_left(key) {
            if self.level_cursor > 0 {
                self.level_cursor = self.level_cursor - 1;
            }
            MenuEffect::Nothing
        } else if key_is_right(key) {
            if self.level_cursor < count - 1 {
                self.level_cursor = self.level_cursor + 1;
            }
            MenuEffect::Nothing
        } else if key_is_up(key) {
            if self.level_cursor > 4 {
                self.level_cursor = self.level_cursor - 4;
            } else {
                self.level_cursor = 0;
            }
            MenuEffect::Nothing
        } else if key_is_down(key) {
            if count - 1 >= 4 && self.level_cursor <= count - 1 - 4 {
                self.level_cursor = self.level_cursor + 4;
            } else {
                self.level_cursor = count - 1;
            }
            MenuEffect::Nothing
        } else if key_is_back(key) {
            self.menu_back();
            MenuEffect::Nothing
        } else if key_is_confirm(key) {
            if self.chapter_cursor == CUSTOM_LEVELS_CHAPTER_INDEX && self.level_cursor == 0 {
                MenuEffect::CreateCustomLevel
            } else {
                match self.selected_catalog_level_index(names) {
                    Some(i) => {
                        self.current_level = i;
                        MenuEffect::OpenLevel
                    },
                    None => MenuEffect::Nothing,
                }
            }
        } else {
            MenuEffect::Nothing
        }
    }

    /// A key on the level menu. Whatever the state before, every cursor is within its menu
    /// after.
    pub fn handle_menu_key(&mut self, key: Key, names: &[String]) -> (effect: MenuEffect)
        requires
            names@.len() < usize::MAX,
        ensures
            (*final(self), effect) == spec_menu_key(*old(self), key, strings_view(names@)),
            cursors_in_bounds(*final(self), strings_view(names@)),
            old(self).menu_screen == MenuScreen::Main && (key == Key::Enter || key == Key::Space) ==> {
                &&& old(self).main_menu_cursor == 0 ==> final(self).menu_screen == MenuScreen::Difficulty
                    && final(self).mode == old(self).mode
                &&& old(self).main_menu_cursor == 1 ==> final(self).mode == AppMode::Options
                    && !final(self).options_return_to_pause && final(self).menu_screen == MenuScreen::Main
                &&& old(self).main_menu_cursor == 2 ==> final(self).mode == AppMode::Changelog
                    && final(self).menu_screen == MenuScreen::Main
                &&& effect == MenuEffect::Nothing
            },
    {
        let ghost nv = strings_view(names@);
        self.clamp_menu_cursors(names);
        let ghost c = *self;
        proof {
            lemma_clamped_in_bounds(*old(self), nv);
            lemma_menu_key_in_bounds(c, key, nv);
        }
        match self.menu_screen {
            MenuScreen::Main => {
                self.main_menu_step(key);
                MenuEffect::Nothing
            },
            MenuScreen::Difficulty => {
                self.difficulty_step(key);
                MenuEffect::Nothing
            },
            MenuScreen::Chapter => {
                self.chapter_step(key);
                MenuEffect::Nothing
            },
            MenuScreen::Layer => self.layer_step(key, names),
        }
    }
}

proof fn lemma_clamped_in_bounds(s: MenuState, names: Seq<Seq<char>>)
    ensures
        cursors_in_bounds(clamped(s, names), names),
        level_cursor_in_bounds(clamped(s, names), names),
{
}

proof fn lemma_menu_key_in_bounds(c: MenuState, key: Key, names: Seq<Seq<char>>)
    requires
        cursors_in_bounds(c, names),
        level_cursor_in_bounds(c, names),
    ensures
        cursors_in_bounds(spec_menu_key(c, key, names).0, names),
{
    lemma_custom_count(names);
    lemma_chapter_levels_small(c.chapter_cursor as int);
    lemma_chapter_levels_small(0);
    let r = spec_menu_key(c, key, names).0;
    lemma_chapter_levels_small(r.chapter_cursor as int);
    assert(clamped(c, names) == c);
    match c.menu_screen {
        MenuScreen::Main => {
            assert(r == main_menu_key(c, key));
            assert(r.chapter_cursor == c.chapter_cursor && r.level_cursor == c.level_cursor);
            assert(r.main_menu_cursor <= MAIN_MENU_LAST);
            assert(r.difficulty_cursor == c.difficulty_cursor);
            assert(cursors_in_bounds(r, names));
        },
        MenuScreen::Difficulty => {
            assert(r == difficulty_menu_key(c, key));
            assert(cursors_in_bounds(r, names));
            if is_confirm(key) && !is_up(key) && !is_down(key) && !is_back(key) {
                assert(r == spec_select_difficulty(c, c.difficulty_cursor as int));
            }
        },
        MenuScreen::Chapter => {
            assert(r == chapter_menu_key(c, key));
            assert(cursors_in_bounds(r, names));
        },
        MenuScreen::Layer => {
            assert(r == layer_menu_key(c, key, names).0);
            assert(cursors_in_bounds(r, names));
        },
    }
}

// ---------------------------------------------------------------------------
// The pause menu, the options and the changelog.

pub open spec fn spec_activate_pause(s: MenuState, index: int) -> (MenuState, Option<PauseAction>) {
    if index == 0 {
        (MenuState { mode: AppMode::Playing, ..s }, Some(PauseAction::Resume))
    } else if index == 1 {
        (MenuState { mode: AppMode::Playing, ..s }, Some(PauseAction::RestartFromCheckpoint))
    } else if index == 2 {
        (MenuState { mode: AppMode::Playing, ..s }, Some(PauseAction::RestartLevel))
    } else if index == 3 {
        (MenuState { options_return_to_pause: true, mode: AppMode::Options, ..s }, Some(PauseAction::Options))
    } else if index == 4 {
        (MenuState { options_return_to_pause: false, mode: AppMode::LevelMenu, ..s }, Some(PauseAction::LevelMenu))
    } else {
        (s, None)
    }
}

/// A key on the pause menu. The first step of the keyboard lands on the last entry (up) or the
/// first (down); `hovered` is the entry under the mouse, which a confirmation prefers to the
/// keyboard's.
pub open spec fn spec_pause_key(s: MenuState, key: Key, hovered: Option<usize>) -> (MenuState, Option<PauseAction>) {
    if is_up(key) {
        (MenuState {
            pause_cursor: if s.pause_keyboard_focus {
                saturating_sub(s.pause_cursor as int, 1) as usize
            } else {
                (PAUSE_ACTION_COUNT - 1) as usize
            },
            pause_keyboard_focus: true,
            ..s
        }, None)
    } else if is_down(key) {
        (MenuState {
            pause_cursor: if s.pause_keyboard_focus {
                min(s.pause_cursor + 1, PAUSE_ACTION_COUNT - 1) as usize
            } else {
                0
            },
            pause_keyboard_focus: true,
            ..s
        }, None)
    } else if is_confirm(key) {
        match hovered {
            Some(i) => spec_activate_pause(s, i as int),
            None => if s.pause_keyboard_focus {
                spec_activate_pause(s, s.pause_cursor as int)
            } else {
                (s, None)
            },
        }
    } else {
        (s, None)
    }
}

/// Leaving the options: back to the pause menu when they were opened from it, else to the
/// level menu; a key being bound is forgotten.
pub open spec fn spec_close_options(s: MenuState) -> MenuState {
    MenuState {
        binding_capture: None,
        mode: if s.options_return_to_pause {
            AppMode::Pause
        } else {
            AppMode::LevelMenu
        },
        options_return_to_pause: false,
        ..s
    }
}

/// A key on the options screen; `rebindable` tells whether the key may be bound to a game key.
pub open spec fn spec_options_key(s: MenuState, key: Key, rebindable: bool) -> (MenuState, OptionsEffect) {
    match s.binding_capture {
        Some(k) => if key == Key::Escape {
            (MenuState { binding_capture: None, ..s }, OptionsEffect::Nothing)
        } else if rebindable {
            (MenuState { binding_capture: None, ..s }, OptionsEffect::Bind(k))
        } else {
            (s, OptionsEffect::Nothing)
        },
        None => if is_back(key) {
            (spec_close_options(s), OptionsEffect::Closed)
        } else {
            (s, OptionsEffect::Nothing)
        },
    }
}

impl MenuState {
    /// Opens the pause menu on its first entry, the keyboard not yet used.
    pub fn open_pause_menu(&mut self)
        ensures
            *final(self) == (MenuState { pause_cursor: 0, pause_keyboard_focus: false, mode: AppMode::Pause, ..*old(self) }),
    {
        self.pause_cursor = 0;
        self.pause_keyboard_focus = false;
        self.mode = AppMode::Pause;
    }

    pub fn resume_from_pause(&mut self)
        ensures
            *final(self) == (MenuState { mode: AppMode::Playing, ..*old(self) }),
    {
        self.mode = AppMode::Playing;
    }

    /// Acts on entry `index` of the pause menu.
    pub fn activate_pause_action(&mut self, index: usize) -> (action: Option<PauseAction>)
        ensures
            (*final(self), action) == spec_activate_pause(*old(self), index as int),
            index == 0 ==> action == Some(PauseAction::Resume) && final(self).mode == AppMode::Playing,
            index == 1 ==> action == Some(PauseAction::RestartFromCheckpoint) && final(self).mode
                == AppMode::Playing,
            index == 2 ==> action == Some(PauseAction::RestartLevel) && final(self).mode
                == AppMode::Playing,
            index == 3 ==> action == Some(PauseAction::Options) && final(self).mode == AppMode::Options
                && final(self).options_return_to_pause,
            index == 4 ==> action == Some(PauseAction::LevelMenu) && final(self).mode
                == AppMode::LevelMenu && !final(self).options_return_to_pause,
            index >= 5 ==> action is None && *final(self) == *old(self),
    {
        if index == 0 {
            self.mode = AppMode::Playing;
            Some(PauseAction::Resume)
        } else if index == 1 {
            self.mode = AppMode::Playing;
            Some(PauseAction::RestartFromCheckpoint)
        } else if index == 2 {
            self.mode = AppMode::Playing;
            Some(PauseAction::RestartLevel)
        } else if index == 3 {
            self.options_return_to_pause = true;
            self.mode = AppMode::Options;
            Some(PauseAction::Options)
        } else if index == 4 {
            self.options_return_to_pause = false;
            self.mode = AppMode::LevelMenu;
            Some(PauseAction::LevelMenu)
        } else {
            None
        }
    }

    /// A click on entry `index` of the pause menu: the cursor moves there, the keyboard focus
    /// is dropped, and the entry acts.
    pub fn click_pause_action(&mut self, index: usize) -> (action: Option<PauseAction>)
        ensures
            (*final(self), action) == spec_activate_pause(
                MenuState { pause_cursor: index, pause_keyboard_focus: false, ..*old(self) },
                index as int,
            ),
    {
        self.pause_cursor = index;
        self.pause_keyboard_focus = false;
        self.activate_pause_action(index)
    }

    /// A key on the pause menu.
    pub fn handle_pause_key(&mut self, key: Key, hovered: Option<usize>) -> (action: Option<PauseAction>)
        ensures
            (*final(self), action) == spec_pause_key(*old(self), key, hovered),
    {
        if key_is_up(key) {
            self.pause_cursor = if self.pause_keyboard_focus {
                if self.pause_cursor > 0 {
                    self.pause_cursor - 1
                } else {
                    0
                }
            } else {
                PAUSE_ACTION_COUNT - 1
            };
            self.pause_keyboard_focus = true;
            None
        } else if key_is_down(key) {
            self.pause_cursor = if self.pause_keyboard_focus {
                if self.pause_cursor < PAUSE_ACTION_COUNT - 1 {
                    self.pause_cursor + 1
                } else {
                    PAUSE_ACTION_COUNT - 1
                }
            } else {
                0
            };
            self.pause_keyboard_focus = true;
            None
        } else if key_is_confirm(key) {
            match hovered {
                Some(i) => self.activate_pause_action(i),
                None => if self.pause_keyboard_focus {
                    let i = self.pause_cursor;
                    self.activate_pause_action(i)
                } else {
                    None
                },
            }
        } else {
            None
        }
    }

    /// Leaves the options screen.
    pub fn close_options(&mut self)
        ensures
            *final(self) == spec_close_options(*old(self)),
    {
        self.binding_capture = None;
        self.mode = if self.options_return_to_pause {
            AppMode::Pause
        } else {
            AppMode::LevelMenu
        };
        self.options_return_to_pause = false;
    }

    /// A key on the options screen.
    pub fn handle_options_key(&mut self, key: Key, rebindable: bool) -> (effect: OptionsEffect)
        ensures
            (*final(self), effect) == spec_options_key(*old(self), key, rebindable),
            old(self).binding_capture is Some && key == Key::Escape ==> final(self).binding_capture
                is None && final(self).mode == old(self).mode && effect == OptionsEffect::Nothing,
            old(self).binding_capture matches Some(k) ==> (key != Key::Escape && rebindable ==> (
            effect == OptionsEffect::Bind(k) && final(self).binding_capture is None)),
            old(self).binding_capture is None && (key == Key::Escape || key == Key::Backspace) ==> effect
                == OptionsEffect::Closed && final(self).mode == (if old(self).options_return_to_pause {
                AppMode::Pause
            } else {
                AppMode::LevelMenu
            }),
    {
        match self.binding_capture {
            Some(k) => {
                if key == Key::Escape {
                    self.binding_capture = None;
                    OptionsEffect::Nothing
                } else if rebindable {
                    self.binding_capture = None;
                    OptionsEffect::Bind(k)
                } else {
                    OptionsEffect::Nothing
                }
            },
            None => {
                if key_is_back(key) {
                    self.close_options();
                    OptionsEffect::Closed
                } else {
                    OptionsEffect::Nothing
                }
            },
        }
    }

    /// A key on the changelog: going back or confirming returns to the level menu.
    pub fn handle_changelog_key(&mut self, key: Key)
        ensures
            *final(self) == if is_back(key) || is_confirm(key) {
                MenuState { mode: AppMode::LevelMenu, ..*old(self) }
            } else {
                *old(self)
            },
    {
        if key_is_back(key) || key_is_confirm(key) {
            self.mode = AppMode::LevelMenu;
        }
    }
}

// ---------------------------------------------------------------------------
// Progress shown on the difficulty screen.

/// The largest of `s`, if it is not empty.
pub open spec fn seq_max(s: Seq<usize>) -> Option<usize>
    decreases s.len(),
{
    if s.len() == 0 {
        None
    } else {
        match seq_max(s.drop_last()) {
            Some(m) => Some(if m < s.last() { s.last() } else { m }),
            None => Some(s.last()),
        }
    }
}

/// The level whose code the difficulty screen shows for difficulty `difficulty_index`: the
/// furthest progress made on it or any harder one, within the `level_count` levels.
pub open spec fn spec_progress_index(progress: Seq<usize>, difficulty_index: int, level_count: int) -> int {
    let furthest = if difficulty_index <= progress.len() {
        match seq_max(progress.skip(difficulty_index)) {
            Some(m) => m as int,
            None => 0,
        }
    } else {
        0
    };
    min(furthest, saturating_sub(level_count, 1))
}

pub fn displayed_progress_index(progress: &[usize], difficulty_index: usize, level_count: usize) -> (r: usize)
    ensures
        r == spec_progress_index(progress@, difficulty_index as int, level_count as int),
{
    let max_index = if level_count > 0 {
        level_count - 1
    } else {
        0
    };
    let mut furthest: usize = 0;
    if difficulty_index <= progress.len() {
        let ghost tail = progress@.skip(difficulty_index as int);
        let mut best: Option<usize> = None;
        let mut i = difficulty_index;
        assert(tail.take(0) =~= Seq::<usize>::empty());
        while i < progress.len()
            invariant
                difficulty_index <= i <= progress@.len(),
                tail == progress@.skip(difficulty_index as int),
                best == seq_max(tail.take(i - difficulty_index)),
            decreases progress@.len() - i,
        {
            let v = progress[i];
            proof {
                let t = tail.take(i + 1 - difficulty_index);
                assert(t.drop_last() =~= tail.take(i - difficulty_index));
                assert(t.last() == v);
            }
            best = match best {
                Some(m) => Some(if m < v { v } else { m }),
                None => Some(v),
            };
            i = i + 1;
        }
        assert(tail.take(i - difficulty_index) =~= tail);
        furthest = match best {
            Some(m) => m,
            None => 0,
        };
    }
    if furthest < max_index {
        furthest
    } else {
        max_index
    }
}

/// The code shown for difficulty `difficulty_index`: that of the level its progress reaches,
/// or `0-1` when that level has none.
pub fn displayed_progress_label(names: &[String], progress: &[usize], difficulty_index: usize) -> (res: String)
    ensures
        res@ == match (if spec_progress_index(progress@, difficulty_index as int, names@.len() as int) < names@.len() {
            spec_level_code(names@[spec_progress_index(progress@, difficulty_index as int, names@.len() as int)]@)
        } else {
            None
        }) {
            Some(c) => c,
            None => "0-1"@,
        },
{
    let index = displayed_progress_index(progress, difficulty_index, names.len());
    if index < names.len() {
        match level_code(names[index].as_str()) {
            Some(c) => return c,
            None => {},
        }
    }
    "0-1".to_string()
}

// ---------------------------------------------------------------------------
// Keys that work in every mode, and where the other keys go.

/// What the caller does after a global key, besides the change of menu state.
#[derive(Clone, Copy, Debug, PartialEq, Eq, Structural)]
pub struct GlobalKeyEffect {
    /// The key was taken and goes no further.
    pub handled: bool,
    /// Reset the camera zoom.
    pub reset_zoom: bool,
    /// Let go of the held gameplay keys and stop the action sounds.
    pub release_gameplay: bool,
    /// Show or hide the debug overlay.
    pub toggle_debug: bool,
    /// Close the resolution list of the options screen.
    pub close_resolution_list: bool,
}

pub open spec fn key_effect(
    handled: bool,
    reset_zoom: bool,
    release_gameplay: bool,
    toggle_debug: bool,
    close_resolution_list: bool,
) -> GlobalKeyEffect {
    GlobalKeyEffect { handled, reset_zoom, release_gameplay, toggle_debug, close_resolution_list }
}

fn make_effect(
    handled: bool,
    reset_zoom: bool,
    release_gameplay: bool,
    toggle_debug: bool,
    close_resolution_list: bool,
) -> (e: GlobalKeyEffect)
    ensures
        e == key_effect(handled, reset_zoom, release_gameplay, toggle_debug, close_resolution_list),
{
    GlobalKeyEffect { handled, reset_zoom, release_gameplay, toggle_debug, close_resolution_list }
}

/// Opening or closing the level menu: from its screens back to playing, from anywhere else
/// to the level menu; leaving the editor resets the zoom.
pub open spec fn spec_toggle_level_menu(s: MenuState) -> (MenuState, GlobalKeyEffect) {
    let reset = s.mode == AppMode::Editor;
    if s.mode == AppMode::LevelMenu || s.mode == AppMode::Changelog || s.mode == AppMode::Options {
        (
            MenuState { mode: AppMode::Playing, options_return_to_pause: false, ..s },
            key_effect(true, reset, false, false, false),
        )
    } else {
        (
            MenuState { mode: AppMode::LevelMenu, options_return_to_pause: false, ..s },
            key_effect(true, reset, true, false, false),
        )
    }
}

/// Opening or closing the editor.
pub open spec fn spec_toggle_editor(s: MenuState) -> (MenuState, GlobalKeyEffect) {
    if s.mode == AppMode::Editor {
        (MenuState { mode: AppMode::Playing, ..s }, key_effect(true, true, false, false, false))
    } else {
        (MenuState { mode: AppMode::Editor, ..s }, key_effect(true, false, true, false, false))
    }
}

/// A key that works in every mode: F1 the level menu, F3 the editor, F7 the debug overlay,
/// and Escape, which backs out of whatever is open one step (or pauses the game). Releases
/// and other keys are not taken.
pub open spec fn spec_global_key(s: MenuState, key: Key, down: bool, resolution_list_open: bool) -> (
    MenuState,
    GlobalKeyEffect,
) {
    let handled = key_effect(true, false, false, false, false);
    if !down {
        (s, key_effect(false, false, false, false, false))
    } else if key == Key::F1 {
        spec_toggle_level_menu(s)
    } else if key == Key::F3 {
        spec_toggle_editor(s)
    } else if key == Key::F7 {
        (s, key_effect(true, false, false, true, false))
    } else if key == Key::Escape {
        if s.mode == AppMode::Options && s.binding_capture is Some {
            (MenuState { binding_capture: None, ..s }, handled)
        } else if s.mode == AppMode::Options && resolution_list_open {
            (s, key_effect(true, false, false, false, true))
        } else if s.mode == AppMode::Options {
            (spec_close_options(s), handled)
        } else if s.mode == AppMode::Changelog {
            (MenuState { mode: AppMode::LevelMenu, ..s }, handled)
        } else if s.mode == AppMode::LevelMenu {
            (MenuState { menu_screen: back_screen(s.menu_screen), ..s }, handled)
        } else if s.mode == AppMode::Pause {
            (MenuState { mode: AppMode::Playing, ..s }, handled)
        } else if s.mode != AppMode::Playing {
            (MenuState { mode: AppMode::Playing, ..s }, key_effect(true, true, true, false, false))
        } else {
            (
                MenuState {
                    pause_cursor: 0,
                    pause_keyboard_focus: false,
                    mode: AppMode::Pause,
                    ..s
                },
                handled,
            )
        }
    } else {
        (s, key_effect(false, false, false, false, false))
    }
}

/// Where a key goes that neither a binding capture nor the global keys took.
#[derive(Clone, Copy, Debug, PartialEq, Eq, Structural)]
pub enum KeyTarget {
    Nothing,
    Game,
    Menu,
    Changelog,
    Options,
    Editor,
}

/// Gameplay and the editor get presses and releases; the menu screens get presses only;
/// the pause menu takes no keys this way.
pub open spec fn spec_key_target(mode: AppMode, down: bool) -> KeyTarget {
    match mode {
        AppMode::Playing => KeyTarget::Game,
        AppMode::LevelMenu => if down { KeyTarget::Menu } else { KeyTarget::Nothing },
        AppMode::Changelog => if down { KeyTarget::Changelog } else { KeyTarget::Nothing },
        AppMode::Options => if down { KeyTarget::Options } else { KeyTarget::Nothing },
        AppMode::Editor => KeyTarget::Editor,
        AppMode::Pause => KeyTarget::Nothing,
    }
}

/// F1 opens the level menu from every mode but the level menu's own screens (the level
/// menu, the changelog and the options), and from those returns to playing.
pub proof fn lemma_f1_toggles_level_menu(s: MenuState, resolution_list_open: bool)
    ensures
        ({
            let (n, e) = spec_global_key(s, Key::F1, true, resolution_list_open);
            &&& e.handled
            &&& (s.mode == AppMode::LevelMenu || s.mode == AppMode::Changelog || s.mode
                == AppMode::Options) ==> n.mode == AppMode::Playing
            &&& !(s.mode == AppMode::LevelMenu || s.mode == AppMode::Changelog || s.mode
                == AppMode::Options) ==> n.mode == AppMode::LevelMenu && e.release_gameplay
            &&& s.mode == AppMode::Pause ==> n.mode == AppMode::LevelMenu
            &&& s.mode == AppMode::Playing ==> n.mode == AppMode::LevelMenu
        }),
        // Pressing F1 twice from play comes back to play.
        s.mode == AppMode::Playing ==> spec_global_key(
            spec_global_key(s, Key::F1, true, resolution_list_open).0,
            Key::F1,
            true,
            resolution_list_open,
        ).0.mode == AppMode::Playing,
{
}

/// Confirming on the main screen: the first entry opens the difficulty screen, the second the
/// options (which then close back to the level menu), the third the changelog.
pub proof fn lemma_main_menu_entries(s: MenuState, key: Key, names: Seq<Seq<char>>)
    requires
        s.menu_screen == MenuScreen::Main,
        key == Key::Enter || key == Key::Space,
    ensures
        ({
            let (n, e) = spec_menu_key(s, key, names);
            &&& e == MenuEffect::Nothing
            &&& s.main_menu_cursor == 0 ==> n.menu_screen == MenuScreen::Difficulty && n.mode == s.mode
            &&& s.main_menu_cursor == 1 ==> n.mode == AppMode::Options && !n.options_return_to_pause
            &&& s.main_menu_cursor == 2 ==> n.mode == AppMode::Changelog
            &&& s.main_menu_cursor >= 3 ==> n.mode == s.mode && n.menu_screen == MenuScreen::Main
        }),
{
}

impl MenuState {
    pub fn toggle_level_menu(&mut self) -> (e: GlobalKeyEffect)
        ensures
            (*final(self), e) == spec_toggle_level_menu(*old(self)),
            old(self).mode == AppMode::LevelMenu || old(self).mode == AppMode::Changelog
                || old(self).mode == AppMode::Options ==> final(self).mode == AppMode::Playing
                && !e.release_gameplay,
            !(old(self).mode == AppMode::LevelMenu || old(self).mode == AppMode::Changelog
                || old(self).mode == AppMode::Options) ==> final(self).mode == AppMode::LevelMenu
                && e.release_gameplay,
            e.handled && e.reset_zoom == (old(self).mode == AppMode::Editor),
            !final(self).options_return_to_pause,
    {
        let reset = self.mode == AppMode::Editor;
        if self.mode == AppMode::LevelMenu || self.mode == AppMode::Changelog || self.mode
            == AppMode::Options {
            self.options_return_to_pause = false;
            self.mode = AppMode::Playing;
            make_effect(true, reset, false, false, false)
        } else {
            self.options_return_to_pause = false;
            self.mode = AppMode::LevelMenu;
            make_effect(true, reset, true, false, false)
        }
    }

    pub fn toggle_editor(&mut self) -> (e: GlobalKeyEffect)
        ensures
            (*final(self), e) == spec_toggle_editor(*old(self)),
    {
        if self.mode == AppMode::Editor {
            self.mode = AppMode::Playing;
            make_effect(true, true, false, false, false)
        } else {
            self.mode = AppMode::Editor;
            make_effect(true, false, true, false, false)
        }
    }

    /// A key that works in every mode; `resolution_list_open` tells whether the options
    /// screen shows its list of resolutions.
    pub fn handle_global_key(&mut self, key: Key, down: bool, resolution_list_open: bool) -> (e:
        GlobalKeyEffect)
        ensures
            (*final(self), e) == spec_global_key(*old(self), key, down, resolution_list_open),
            down && key == Key::F1 && (old(self).mode == AppMode::LevelMenu || old(self).mode
                == AppMode::Changelog || old(self).mode == AppMode::Options) ==> final(self).mode
                == AppMode::Playing,
            down && key == Key::F1 && !(old(self).mode == AppMode::LevelMenu || old(self).mode
                == AppMode::Changelog || old(self).mode == AppMode::Options) ==> final(self).mode
                == AppMode::LevelMenu && e.release_gameplay,
            down && key == Key::F3 ==> final(self).mode == (if old(self).mode == AppMode::Editor {
                AppMode::Playing
            } else {
                AppMode::Editor
            }),
            !down ==> *final(self) == *old(self) && !e.handled,
    {
        if !down {
            return make_effect(false, false, false, false, false);
        }
        if key == Key::F1 {
            self.toggle_level_menu()
        } else if key == Key::F3 {
            self.toggle_editor()
        } else if key == Key::F7 {
            make_effect(true, false, false, true, false)
        } else if key == Key::Escape {
            if self.mode == AppMode::Options && self.binding_capture.is_some() {
                self.binding_capture = None;
                make_effect(true, false, false, false, false)
            } else if self.mode == AppMode::Options && resolution_list_open {
                make_effect(true, false, false, false, true)
            } else if self.mode == AppMode::Options {
                self.close_options();
                make_effect(true, false, false, false, false)
            } else if self.mode == AppMode::Changelog {
                self.mode = AppMode::LevelMenu;
                make_effect(true, false, false, false, false)
            } else if self.mode == AppMode::LevelMenu {
                self.menu_back();
                make_effect(true, false, false, false, false)
            } else if self.mode == AppMode::Pause {
                self.resume_from_pause();
                make_effect(true, false, false, false, false)
            } else if self.mode != AppMode::Playing {
                self.mode = AppMode::Playing;
                make_effect(true, true, true, false, false)
            } else {
                self.open_pause_menu();
                make_effect(true, false, false, false, false)
            }
        } else {
            make_effect(false, false, false, false, false)
        }
    }

    /// Finishing the current level: the progress of the chosen difficulty reaches at least
    /// this level, and the level list opens. The caller then lets go of the held gameplay
    /// keys and stops the action sounds.
    pub fn complete_current_level(&mut self, progress: &mut Vec<usize>)
        requires
            old(progress)@.len() == DIFFICULTY_COUNT,
        ensures
            final(progress)@ == old(progress)@.update(
                spec_index(old(self).selected_difficulty),
                if old(progress)@[spec_index(old(self).selected_difficulty)] < old(self).current_level {
                    old(self).current_level
                } else {
                    old(progress)@[spec_index(old(self).selected_difficulty)]
                },
            ),
            *final(self) == (MenuState {
                menu_screen: MenuScreen::Layer,
                mode: AppMode::LevelMenu,
                ..*old(self)
            }),
    {
        let d = self.selected_difficulty.index();
        let reached = if progress[d] < self.current_level {
            self.current_level
        } else {
            progress[d]
        };
        progress.set(d, reached);
        self.menu_screen = MenuScreen::Layer;
        self.mode = AppMode::LevelMenu;
    }

    /// A key being bound on the options screen is taken before the global keys.
    pub fn captures_key(&self, down: bool) -> (b: bool)
        ensures
            b == (self.mode == AppMode::Options && self.binding_capture is Some && down),
    {
        self.mode == AppMode::Options && self.binding_capture.is_some() && down
    }

    /// Where a key goes that neither a binding capture nor the global keys took.
    pub fn key_target(&self, down: bool) -> (t: KeyTarget)
        ensures
            t == spec_key_target(self.mode, down),
            self.mode == AppMode::Playing ==> t == KeyTarget::Game,
            self.mode == AppMode::Editor ==> t == KeyTarget::Editor,
            self.mode == AppMode::Pause ==> t == KeyTarget::Nothing,
            !down && self.mode != AppMode::Playing && self.mode != AppMode::Editor ==> t
                == KeyTarget::Nothing,
            down && self.mode == AppMode::LevelMenu ==> t == KeyTarget::Menu,
            down && self.mode == AppMode::Changelog ==> t == KeyTarget::Changelog,
            down && self.mode == AppMode::Options ==> t == KeyTarget::Options,
    {
        match self.mode {
            AppMode::Playing => KeyTarget::Game,
            AppMode::LevelMenu => if down { KeyTarget::Menu } else { KeyTarget::Nothing },
            AppMode::Changelog => if down { KeyTarget::Changelog } else { KeyTarget::Nothing },
            AppMode::Options => if down { KeyTarget::Options } else { KeyTarget::Nothing },
            AppMode::Editor => KeyTarget::Editor,
            AppMode::Pause => KeyTarget::Nothing,
        }
    }
}

} // verus!
