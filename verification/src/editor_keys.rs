//! What a key does in the level editor: shortcuts, typing into a text object, panning the
//! view, and the commands bound to single keys. The editing itself is done by the caller on
//! the returned action.
use vstd::prelude::*;

use crate::editor::EditorTool;
use crate::kinds::Key;
use crate::strutil::{chars_of, push_char, string_from_chars};

verus! {

/// The character a key types, upper case for letters; `shift` picks the second symbol of the
/// keys that carry two.
pub open spec fn spec_key_char(key: Key, shift: bool) -> Option<char> {
    match key {
        Key::Space => Some(' '),
        Key::Minus => Some(if shift { '_' } else { '-' }),
        Key::Equal => Some(if shift { '+' } else { '=' }),
        Key::Slash => Some(if shift { '?' } else { '/' }),
        Key::Backslash => Some(if shift { '|' } else { '\\' }),
        Key::Period => Some(if shift { '>' } else { '.' }),
        Key::Comma => Some(if shift { '<' } else { ',' }),
        Key::Semicolon => Some(if shift { ':' } else { ';' }),
        Key::Quote => Some(if shift { '"' } else { '\'' }),
        Key::BracketLeft => Some(if shift { '{' } else { '[' }),
        Key::BracketRight => Some(if shift { '}' } else { ']' }),
        Key::Backquote => Some(if shift { '~' } else { '`' }),
        Key::Digit0 => Some(if shift { ')' } else { '0' }),
        Key::Digit1 => Some(if shift { '!' } else { '1' }),
        Key::Digit2 => Some(if shift { '@' } else { '2' }),
        Key::Digit3 => Some(if shift { '#' } else { '3' }),
        Key::Digit4 => Some(if shift { '$' } else { '4' }),
        Key::Digit5 => Some(if shift { '%' } else { '5' }),
        Key::Digit6 => Some(if shift { '^' } else { '6' }),
        Key::Digit7 => Some(if shift { '&' } else { '7' }),
        Key::Digit8 => Some(if shift { '*' } else { '8' }),
        Key::Digit9 => Some(if shift { '(' } else { '9' }),
        Key::KeyA => Some('A'),
        Key::KeyB => Some('B'),
        Key::KeyC => Some('C'),
        Key::KeyD => Some('D'),
        Key::KeyE => Some('E'),
        Key::KeyF => Some('F'),
        Key::KeyG => Some('G'),
        Key::KeyH => Some('H'),
        Key::KeyI => Some('I'),
        Key::KeyJ => Some('J'),
        Key::KeyK => Some('K'),
        Key::KeyL => Some('L'),
        Key::KeyM => Some('M'),
        Key::KeyN => Some('N'),
        Key::KeyO => Some('O'),
        Key::KeyP => Some('P'),
        Key::KeyQ => Some('Q'),
        Key::KeyR => Some('R'),
        Key::KeyS => Some('S'),
        Key::KeyT => Some('T'),
        Key::KeyU => Some('U'),
        Key::KeyV => Some('V'),
        Key::KeyW => Some('W'),
        Key::KeyX => Some('X'),
        Key::KeyY => Some('Y'),
        Key::KeyZ => Some('Z'),
        _ => None,
    }
}

pub fn key_char(key: Key, shift: bool) -> (r: Option<char>)
    ensures
        r == spec_key_char(key, shift),
{
    match key {
        Key::Space => Some(' '),
        Key::Minus => Some(if shift { '_' } else { '-' }),
        Key::Equal => Some(if shift { '+' } else { '=' }),
        Key::Slash => Some(if shift { '?' } else { '/' }),
        Key::Backslash => Some(if shift { '|' } else { '\\' }),
        Key::Period => Some(if shift { '>' } else { '.' }),
        Key::Comma => Some(if shift { '<' } else { ',' }),
        Key::Semicolon => Some(if shift { ':' } else { ';' }),
        Key::Quote => Some(if shift { '"' } else { '\'' }),
        Key::BracketLeft => Some(if shift { '{' } else { '[' }),
        Key::BracketRight => Some(if shift { '}' } else { ']' }),
        Key::Backquote => Some(if shift { '~' } else { '`' }),
        Key::Digit0 => Some(if shift { ')' } else { '0' }),
        Key::Digit1 => Some(if shift { '!' } else { '1' }),
        Key::Digit2 => Some(if shift { '@' } else { '2' }),
        Key::Digit3 => Some(if shift { '#' } else { '3' }),
        Key::Digit4 => Some(if shift { '$' } else { '4' }),
        Key::Digit5 => Some(if shift { '%' } else { '5' }),
        Key::Digit6 => Some(if shift { '^' } else { '6' }),
        Key::Digit7 => Some(if shift { '&' } else { '7' }),
        Key::Digit8 => Some(if shift { '*' } else { '8' }),
        Key::Digit9 => Some(if shift { '(' } else { '9' }),
        Key::KeyA => Some('A'),
        Key::KeyB => Some('B'),
        Key::KeyC => Some('C'),
        Key::KeyD => Some('D'),
        Key::KeyE => Some('E'),
        Key::KeyF => Some('F'),
        Key::KeyG => Some('G'),
        Key::KeyH => Some('H'),
        Key::KeyI => Some('I'),
        Key::KeyJ => Some('J'),
        Key::KeyK => Some('K'),
        Key::KeyL => Some('L'),
        Key::KeyM => Some('M'),
        Key::KeyN => Some('N'),
        Key::KeyO => Some('O'),
        Key::KeyP => Some('P'),
        Key::KeyQ => Some('Q'),
        Key::KeyR => Some('R'),
        Key::KeyS => Some('S'),
        Key::KeyT => Some('T'),
        Key::KeyU => Some('U'),
        Key::KeyV => Some('V'),
        Key::KeyW => Some('W'),
        Key::KeyX => Some('X'),
        Key::KeyY => Some('Y'),
        Key::KeyZ => Some('Z'),
        _ => None,
    }
}

/// A text after the last character is erased; an emptied text keeps one space.
pub open spec fn spec_erase_char(t: Seq<char>) -> Seq<char> {
    let rest = if t.len() > 0 {
        t.drop_last()
    } else {
        t
    };
    if rest.len() == 0 {
        seq![' ']
    } else {
        rest
    }
}

/// A text after a character is typed; the placeholder `TEXT` is replaced rather than extended.
pub open spec fn spec_type_char(t: Seq<char>, c: char) -> Seq<char> {
    if t == "TEXT"@ {
        seq![c]
    } else {
        t.push(c)
    }
}

/// Erases the last character of a text being edited.
pub fn erase_char(text: &mut String)
    ensures
        final(text)@ == spec_erase_char(old(text)@),
{
    let cs = chars_of(text.as_str());
    let n = cs.len();
    if n <= 1 {
        *text = " ".to_string();
        proof {
            reveal_strlit(" ");
        }
        assert(text@ =~= spec_erase_char(old(text)@));
        return;
    }
    let mut kept = cs;
    kept.pop();
    *text = string_from_chars(kept.as_slice());
    assert(text@ =~= spec_erase_char(old(text)@));
}

/// Types one character into a text being edited.
pub fn type_char(text: &mut String, c: char)
    ensures
        final(text)@ == spec_type_char(old(text)@, c),
{
    if crate::strutil::str_eq(text.as_str(), "TEXT") {
        *text = String::new();
        push_char(text, c);
        assert(text@ =~= seq![c]);
    } else {
        push_char(text, c);
    }
}

/// A direction of panning the view.
#[derive(Clone, Copy, Debug, PartialEq, Eq, Structural)]
pub enum PanDirection {
    Up,
    Left,
    Down,
    Right,
}

/// What the caller does after a key in the editor.
#[derive(Clone, Copy, Debug, PartialEq, Eq, Structural)]
pub enum EditorKeyAction {
    Nothing,
    SelectAll,
    Copy,
    Duplicate,
    Paste,
    Cut,
    Undo,
    /// Erase the last character of the selected text.
    EraseChar,
    /// Type this character into the selected text.
    TypeChar(char),
    /// Hold (`true`) or release panning in this direction.
    Pan(PanDirection, bool),
    /// Make a block of this tool at the cursor.
    CreateBlock(EditorTool),
    /// Make an object of this tool at the cursor.
    CreateObject(EditorTool),
    /// Make a block of the tool in hand.
    CreateWithCurrentTool,
    DeleteSelected,
    TogglePortalable,
    SetSpawn,
    ToggleGridSnap,
    /// Change the selected world portal's id, receiver and priority by these amounts.
    AdjustWorldPortal(i16, i16, i16),
    /// Move the selected objects this many editor layers.
    AdjustLayer(i16),
    Save,
}

/// The editor's own flags that keys change.
#[derive(Clone, Copy, Debug, PartialEq, Eq, Structural)]
pub struct EditorKeyState {
    pub text_editing: bool,
    pub rotate_ui: bool,
}

/// The key shortcuts held with Control.
pub open spec fn shortcut(key: Key) -> Option<EditorKeyAction> {
    match key {
        Key::KeyA => Some(EditorKeyAction::SelectAll),
        Key::KeyC => Some(EditorKeyAction::Copy),
        Key::KeyD => Some(EditorKeyAction::Duplicate),
        Key::KeyV => Some(EditorKeyAction::Paste),
        Key::KeyX => Some(EditorKeyAction::Cut),
        Key::KeyZ => Some(EditorKeyAction::Undo),
        _ => None,
    }
}

pub open spec fn pan_of(key: Key) -> Option<PanDirection> {
    match key {
        Key::KeyW | Key::ArrowUp => Some(PanDirection::Up),
        Key::KeyA | Key::ArrowLeft => Some(PanDirection::Left),
        Key::KeyS | Key::ArrowDown => Some(PanDirection::Down),
        Key::KeyD | Key::ArrowRight => Some(PanDirection::Right),
        _ => None,
    }
}

/// The commands of single keys pressed outside text editing.
pub open spec fn command(s: EditorKeyState, key: Key, has_selected_text: bool) -> (EditorKeyState, EditorKeyAction) {
    match key {
        Key::Digit1 => (s, EditorKeyAction::CreateBlock(EditorTool::Portalable)),
        Key::Digit2 => (s, EditorKeyAction::CreateBlock(EditorTool::Solid)),
        Key::Digit3 => (s, EditorKeyAction::CreateObject(EditorTool::Hazard)),
        Key::Digit4 => (s, EditorKeyAction::CreateObject(EditorTool::Door)),
        Key::Digit5 => (s, EditorKeyAction::CreateObject(EditorTool::Checkpoint)),
        Key::Digit6 => (s, EditorKeyAction::CreateObject(EditorTool::WorldPortal)),
        Key::Digit7 => (s, EditorKeyAction::CreateObject(EditorTool::Text)),
        Key::Digit8 => (s, EditorKeyAction::CreateObject(EditorTool::Filth)),
        Key::Digit9 => (s, EditorKeyAction::CreateObject(EditorTool::LevelStart)),
        Key::Digit0 => (s, EditorKeyAction::CreateObject(EditorTool::LevelEnd)),
        Key::Delete | Key::Backspace => (s, EditorKeyAction::DeleteSelected),
        Key::Enter => (
            if has_selected_text {
                EditorKeyState { text_editing: !s.text_editing, ..s }
            } else {
                s
            },
            EditorKeyAction::Nothing,
        ),
        Key::KeyP => (s, EditorKeyAction::TogglePortalable),
        Key::KeyR => (EditorKeyState { rotate_ui: !s.rotate_ui, ..s }, EditorKeyAction::Nothing),
        Key::KeyG => (s, EditorKeyAction::SetSpawn),
        Key::KeyH => (s, EditorKeyAction::ToggleGridSnap),
        Key::KeyI => (s, EditorKeyAction::AdjustWorldPortal(1, 0, 0)),
        Key::KeyO => (s, EditorKeyAction::AdjustWorldPortal(0, 1, 0)),
        Key::KeyU => (s, EditorKeyAction::AdjustWorldPortal(0, 0, 1)),
        Key::KeyJ => (s, EditorKeyAction::AdjustWorldPortal(0, 0, -1i16)),
        Key::KeyN => (s, EditorKeyAction::CreateWithCurrentTool),
        Key::PageUp => (s, EditorKeyAction::AdjustLayer(1)),
        Key::PageDown => (s, EditorKeyAction::AdjustLayer(-1i16)),
        Key::F5 => (s, EditorKeyAction::Save),
        _ => (s, EditorKeyAction::Nothing),
    }
}

/// A key pressed (`down`) or released in the editor, with Control or Shift held or not, and
/// whether the object selected first is a text. In turn: a Control shortcut; typing into the
/// text being edited (editing stops when no text is selected any more); panning, unless a text
/// is being edited; then, for a press, the key's command.
pub open spec fn spec_editor_key(
    s: EditorKeyState,
    key: Key,
    down: bool,
    control: bool,
    shift: bool,
    has_selected_text: bool,
) -> (EditorKeyState, EditorKeyAction) {
    if down && control && shortcut(key) is Some {
        (s, shortcut(key).unwrap())
    } else if down && s.text_editing && has_selected_text {
        if key == Key::Enter {
            (EditorKeyState { text_editing: false, ..s }, EditorKeyAction::Nothing)
        } else if key == Key::Backspace {
            (s, EditorKeyAction::EraseChar)
        } else {
            match spec_key_char(key, shift) {
                Some(c) => (s, EditorKeyAction::TypeChar(c)),
                None => (s, EditorKeyAction::Nothing),
            }
        }
    } else {
        let t = if down && s.text_editing {
            EditorKeyState { text_editing: false, ..s }
        } else {
            s
        };
        if !t.text_editing && pan_of(key) is Some {
            (t, EditorKeyAction::Pan(pan_of(key).unwrap(), down))
        } else if !down {
            (t, EditorKeyAction::Nothing)
        } else {
            command(t, key, has_selected_text)
        }
    }
}

/// The letter keys, `A` to `Z`.
pub open spec fn letter_key(i: int) -> Key {
    if i == 0 {
        Key::KeyA
    } else if i == 1 {
        Key::KeyB
    } else if i == 2 {
        Key::KeyC
    } else if i == 3 {
        Key::KeyD
    } else if i == 4 {
        Key::KeyE
    } else if i == 5 {
        Key::KeyF
    } else if i == 6 {
        Key::KeyG
    } else if i == 7 {
        Key::KeyH
    } else if i == 8 {
        Key::KeyI
    } else if i == 9 {
        Key::KeyJ
    } else if i == 10 {
        Key::KeyK
    } else if i == 11 {
        Key::KeyL
    } else if i == 12 {
        Key::KeyM
    } else if i == 13 {
        Key::KeyN
    } else if i == 14 {
        Key::KeyO
    } else if i == 15 {
        Key::KeyP
    } else if i == 16 {
        Key::KeyQ
    } else if i == 17 {
        Key::KeyR
    } else if i == 18 {
        Key::KeyS
    } else if i == 19 {
        Key::KeyT
    } else if i == 20 {
        Key::KeyU
    } else if i == 21 {
        Key::KeyV
    } else if i == 22 {
        Key::KeyW
    } else if i == 23 {
        Key::KeyX
    } else if i == 24 {
        Key::KeyY
    } else {
        Key::KeyZ
    }
}

/// Typing a letter key gives its capital letter, shifted or not; typing a number key without
/// Shift gives its digit (`1` to `9`, then `0`).
pub proof fn lemma_typed_letters_and_digits(shift: bool)
    ensures
        forall|i: int| 0 <= i < 26 ==> #[trigger] spec_key_char(letter_key(i), shift) == Some(
            (65 + i) as char,
        ),
        forall|i: int| 0 <= i < 10 ==> #[trigger] spec_key_char(number_key(i), false) == Some(
            (if i == 9 { 48 } else { 49 + i }) as char,
        ),
{
    assert forall|i: int| 0 <= i < 26 implies #[trigger] spec_key_char(letter_key(i), shift) == Some(
        (65 + i) as char,
    ) by {
        assert(0 <= i < 26);
    }
}

/// The number keys, `1` to `9` then `0`.
pub open spec fn number_key(i: int) -> Key {
    if i == 0 {
        Key::Digit1
    } else if i == 1 {
        Key::Digit2
    } else if i == 2 {
        Key::Digit3
    } else if i == 3 {
        Key::Digit4
    } else if i == 4 {
        Key::Digit5
    } else if i == 5 {
        Key::Digit6
    } else if i == 6 {
        Key::Digit7
    } else if i == 7 {
        Key::Digit8
    } else if i == 8 {
        Key::Digit9
    } else {
        Key::Digit0
    }
}

/// Outside text editing and without Control, each of the ten number keys creates something,
/// each a different thing: the two block tools and the eight object tools of the palette.
pub proof fn lemma_number_keys_create_distinct(s: EditorKeyState, shift: bool, has_selected_text: bool)
    requires
        !s.text_editing,
    ensures
        forall|i: int| 0 <= i < 10 ==> {
            let a = #[trigger] spec_editor_key(s, number_key(i), true, false, shift, has_selected_text).1;
            a is CreateBlock || a is CreateObject
        },
        forall|i: int, j: int|
            0 <= i < j < 10 ==> #[trigger] spec_editor_key(s, number_key(i), true, false, shift, has_selected_text).1
                != #[trigger] spec_editor_key(s, number_key(j), true, false, shift, has_selected_text).1,
        spec_editor_key(s, Key::Digit1, true, false, shift, has_selected_text).1
            == EditorKeyAction::CreateBlock(EditorTool::Portalable),
        spec_editor_key(s, Key::Digit2, true, false, shift, has_selected_text).1
            == EditorKeyAction::CreateBlock(EditorTool::Solid),
{
}

fn shortcut_of(key: Key) -> (r: Option<EditorKeyAction>)
    ensures
        r == shortcut(key),
{
    match key {
        Key::KeyA => Some(EditorKeyAction::SelectAll),
        Key::KeyC => Some(EditorKeyAction::Copy),
        Key::KeyD => Some(EditorKeyAction::Duplicate),
        Key::KeyV => Some(EditorKeyAction::Paste),
        Key::KeyX => Some(EditorKeyAction::Cut),
        Key::KeyZ => Some(EditorKeyAction::Undo),
        _ => None,
    }
}

fn pan_direction(key: Key) -> (r: Option<PanDirection>)
    ensures
        r == pan_of(key),
{
    match key {
        Key::KeyW | Key::ArrowUp => Some(PanDirection::Up),
        Key::KeyA | Key::ArrowLeft => Some(PanDirection::Left),
        Key::KeyS | Key::ArrowDown => Some(PanDirection::Down),
        Key::KeyD | Key::ArrowRight => Some(PanDirection::Right),
        _ => None,
    }
}

fn command_of(s: EditorKeyState, key: Key, has_selected_text: bool) -> (r: (EditorKeyState, EditorKeyAction))
    ensures
        r == command(s, key, has_selected_text),
{
    match key {
        Key::Digit1 => (s, EditorKeyAction::CreateBlock(EditorTool::Portalable)),
        Key::Digit2 => (s, EditorKeyAction::CreateBlock(EditorTool::Solid)),
        Key::Digit3 => (s, EditorKeyAction::CreateObject(EditorTool::Hazard)),
        Key::Digit4 => (s, EditorKeyAction::CreateObject(EditorTool::Door)),
        Key::Digit5 => (s, EditorKeyAction::CreateObject(EditorTool::Checkpoint)),
        Key::Digit6 => (s, EditorKeyAction::CreateObject(EditorTool::WorldPortal)),
        Key::Digit7 => (s, EditorKeyAction::CreateObject(EditorTool::Text)),
        Key::Digit8 => (s, EditorKeyAction::CreateObject(EditorTool::Filth)),
        Key::Digit9 => (s, EditorKeyAction::CreateObject(EditorTool::LevelStart)),
        Key::Digit0 => (s, EditorKeyAction::CreateObject(EditorTool::LevelEnd)),
        Key::Delete | Key::Backspace => (s, EditorKeyAction::DeleteSelected),
        Key::Enter => (
            if has_selected_text {
                EditorKeyState { text_editing: !s.text_editing, ..s }
            } else {
                s
            },
            EditorKeyAction::Nothing,
        ),
        Key::KeyP => (s, EditorKeyAction::TogglePortalable),
        Key::KeyR => (EditorKeyState { rotate_ui: !s.rotate_ui, ..s }, EditorKeyAction::Nothing),
        Key::KeyG => (s, EditorKeyAction::SetSpawn),
        Key::KeyH => (s, EditorKeyAction::ToggleGridSnap),
        Key::KeyI => (s, EditorKeyAction::AdjustWorldPortal(1, 0, 0)),
        Key::KeyO => (s, EditorKeyAction::AdjustWorldPortal(0, 1, 0)),
        Key::KeyU => (s, EditorKeyAction::AdjustWorldPortal(0, 0, 1)),
        Key::KeyJ => (s, EditorKeyAction::AdjustWorldPortal(0, 0, -1)),
        Key::KeyN => (s, EditorKeyAction::CreateWithCurrentTool),
        Key::PageUp => (s, EditorKeyAction::AdjustLayer(1)),
        Key::PageDown => (s, EditorKeyAction::AdjustLayer(-1)),
        Key::F5 => (s, EditorKeyAction::Save),
        _ => (s, EditorKeyAction::Nothing),
    }
}

impl EditorKeyState {
    /// A key in the editor; see `spec_editor_key`.
    pub fn handle_key(&mut self, key: Key, down: bool, control: bool, shift: bool, has_selected_text: bool) -> (action: EditorKeyAction)
        ensures
            (*final(self), action) == spec_editor_key(*old(self), key, down, control, shift, has_selected_text),
            down && control ==> {
                &&& key == Key::KeyA ==> action == EditorKeyAction::SelectAll
                &&& key == Key::KeyC ==> action == EditorKeyAction::Copy
                &&& key == Key::KeyD ==> action == EditorKeyAction::Duplicate
                &&& key == Key::KeyV ==> action == EditorKeyAction::Paste
                &&& key == Key::KeyX ==> action == EditorKeyAction::Cut
                &&& key == Key::KeyZ ==> action == EditorKeyAction::Undo
            },
            !control && !old(self).text_editing ==> {
                &&& (key == Key::KeyW || key == Key::ArrowUp) ==> action == EditorKeyAction::Pan(PanDirection::Up, down)
                &&& (key == Key::KeyA || key == Key::ArrowLeft) ==> action == EditorKeyAction::Pan(PanDirection::Left, down)
                &&& (key == Key::KeyS || key == Key::ArrowDown) ==> action == EditorKeyAction::Pan(PanDirection::Down, down)
                &&& (key == Key::KeyD || key == Key::ArrowRight) ==> action == EditorKeyAction::Pan(PanDirection::Right, down)
            },
            down && !control && !old(self).text_editing ==> {
                &&& (key == Key::Delete || key == Key::Backspace) ==> action == EditorKeyAction::DeleteSelected
                &&& key == Key::F5 ==> action == EditorKeyAction::Save
                &&& key == Key::Digit1 ==> action == EditorKeyAction::CreateBlock(EditorTool::Portalable)
                &&& key == Key::Digit2 ==> action == EditorKeyAction::CreateBlock(EditorTool::Solid)
                &&& key == Key::Digit3 ==> action == EditorKeyAction::CreateObject(EditorTool::Hazard)
                &&& key == Key::Digit4 ==> action == EditorKeyAction::CreateObject(EditorTool::Door)
                &&& key == Key::Digit5 ==> action == EditorKeyAction::CreateObject(EditorTool::Checkpoint)
                &&& key == Key::Digit6 ==> action == EditorKeyAction::CreateObject(EditorTool::WorldPortal)
                &&& key == Key::Digit7 ==> action == EditorKeyAction::CreateObject(EditorTool::Text)
                &&& key == Key::Digit8 ==> action == EditorKeyAction::CreateObject(EditorTool::Filth)
                &&& key == Key::Digit9 ==> action == EditorKeyAction::CreateObject(EditorTool::LevelStart)
                &&& key == Key::Digit0 ==> action == EditorKeyAction::CreateObject(EditorTool::LevelEnd)
            },
    {
        if down && control {
            match shortcut_of(key) {
                Some(a) => return a,
                None => {},
            }
        }
        if down && self.text_editing {
            if has_selected_text {
                if key == Key::Enter {
                    self.text_editing = false;
                    return EditorKeyAction::Nothing;
                } else if key == Key::Backspace {
                    return EditorKeyAction::EraseChar;
                } else {
                    return match key_char(key, shift) {
                        Some(c) => EditorKeyAction::TypeChar(c),
                        None => EditorKeyAction::Nothing,
                    };
                }
            }
            self.text_editing = false;
        }
        if !self.text_editing {
            match pan_direction(key) {
                Some(d) => return EditorKeyAction::Pan(d, down),
                None => {},
            }
        }
        if !down {
            return EditorKeyAction::Nothing;
        }
        let (next, action) = command_of(*self, key, has_selected_text);
        *self = next;
        action
    }
}

} // verus!
