//! The decisions of a text input: counting clicks into word and line
//! selection, and turning key presses into editing commands.

use vstd::prelude::*;
use vstd::string::StrSliceExecFns;

use crate::events::{ElementState, Event, EventKind, Ime, Key, KeyboardEvent, KeyboardModifiers, NamedKey, PointerButton};

verus! {

/// Messages a text input understands from the application.
#[derive(Clone, Copy, Debug, PartialEq, Eq, Structural)]
pub enum TextInputMessage {
    Copy,
    Paste,
    Cut,
}

/// The operating system family, which decides the editing shortcuts.
#[derive(Clone, Copy, Debug, PartialEq, Eq, Structural)]
pub enum Platform {
    MacOs,
    Windows,
    Other,
}

/// The clicks of a multi-click, counted up to three and then round again.
#[derive(Clone, Copy, Debug)]
pub struct ClickCounter {
    count: u32,
}

/// What a press of the pointer in a text input does to the selection.
#[derive(Clone, Copy, Debug, PartialEq, Eq, Structural)]
pub enum PressSelection {
    /// Put the cursor at the pointer.
    MoveToPoint,
    /// Select the word at the pointer.
    SelectWord,
    /// Select the line at the pointer.
    SelectLine,
}

/// A press within a quarter of a second of the last one continues the
/// count, modulo four; any other press starts at one.
pub open spec fn next_click_count(count: u32, since_last_nanos: Option<u128>) -> u32 {
    match since_last_nanos {
        Some(n) => if n < 250_000_000 {
            ((count + 1) % 4) as u32
        } else {
            1
        },
        None => 1,
    }
}

/// The selection a press makes: two clicks select a word, three a line.
pub open spec fn press_selection(count: u32) -> PressSelection {
    if count == 2 {
        PressSelection::SelectWord
    } else if count == 3 {
        PressSelection::SelectLine
    } else {
        PressSelection::MoveToPoint
    }
}

impl ClickCounter {
    pub closed spec fn count_of(&self) -> u32 {
        self.count
    }

    pub closed spec fn wf(&self) -> bool {
        self.count < 4
    }

    /// No click counted yet.
    pub fn new() -> (r: ClickCounter)
        ensures
            r.wf(),
            r.count_of() == 0,
    {
        ClickCounter { count: 0 }
    }

    /// Counts a press, given the time since the last one in nanoseconds
    /// (none for a first press), and returns the selection it makes.
    pub fn press(&mut self, since_last_nanos: Option<u128>) -> (r: PressSelection)
        requires
            old(self).wf(),
        ensures
            final(self).wf(),
            final(self).count_of() == next_click_count(old(self).count_of(), since_last_nanos),
            r == press_selection(final(self).count_of()),
    {
        self.count = match since_last_nanos {
            Some(n) => if n < 250_000_000 {
                (self.count + 1) % 4
            } else {
                1
            },
            None => 1,
        };
        if self.count == 2 {
            PressSelection::SelectWord
        } else if self.count == 3 {
            PressSelection::SelectLine
        } else {
            PressSelection::MoveToPoint
        }
    }
}

/// Three quick presses select a line, a fourth puts the cursor down again.
pub proof fn lemma_triple_click_selects_line(gap: u128)
    requires
        gap < 250_000_000,
    ensures
        ({
            let one = next_click_count(0, None);
            let two = next_click_count(one, Some(gap));
            let three = next_click_count(two, Some(gap));
            let four = next_click_count(three, Some(gap));
            &&& press_selection(one) == PressSelection::MoveToPoint
            &&& press_selection(two) == PressSelection::SelectWord
            &&& press_selection(three) == PressSelection::SelectLine
            &&& press_selection(four) == PressSelection::MoveToPoint
        }),
{
}

/// An editing command for the text editor behind a text input.
#[derive(Clone, Debug, PartialEq, Eq)]
pub enum EditCommand {
    Undo,
    Redo,
    Copy,
    Cut,
    Paste,
    SelectAll,
    CollapseSelection,
    MoveLeft,
    SelectLeft,
    MoveRight,
    SelectRight,
    MoveUp,
    SelectUp,
    MoveDown,
    SelectDown,
    MoveWordLeft,
    SelectWordLeft,
    MoveWordRight,
    SelectWordRight,
    MoveToLineStart,
    SelectToLineStart,
    MoveToLineEnd,
    SelectToLineEnd,
    MoveToTextStart,
    SelectToTextStart,
    MoveToTextEnd,
    SelectToTextEnd,
    MoveToHardLineStart,
    SelectToHardLineStart,
    MoveToHardLineEnd,
    SelectToHardLineEnd,
    Delete,
    DeleteWord,
    Backdelete,
    BackdeleteWord,
    MoveAnchorToLineStart,
    MoveAnchorWordLeft,
    /// Remove the selected text.
    DeleteSelection,
    /// Insert a line break at the cursor, replacing the selection.
    InsertNewline,
    /// Insert the text at the cursor, replacing the selection.
    InsertOrReplace(String),
}

/// What a key press does in a text input: the commands in order, whether
/// the view scrolls to the cursor, and whether the text changed (the cached
/// layout is dropped and a text-changed event is queued).
#[derive(Clone, Debug)]
pub struct KeyPressPlan {
    pub commands: Vec<EditCommand>,
    pub scroll_to_cursor: bool,
    pub text_changed: bool,
}

/// The modifiers that stand for shift, actions and word steps: command and
/// option on macOS, control for both elsewhere.
pub open spec fn shortcut_mods(m: KeyboardModifiers, platform: Platform) -> (bool, bool, bool) {
    if platform == Platform::MacOs {
        (m.shift, m.meta, m.alt)
    } else {
        (m.shift, m.control, m.control)
    }
}

/// `s` is the one character `lower` or `upper`.
pub open spec fn is_letter(s: Seq<char>, lower: char, upper: char) -> bool {
    s == seq![lower] || s == seq![upper]
}

/// A move or its selecting form.
pub open spec fn mv(shift: bool, select: EditCommand, plain: EditCommand) -> Seq<EditCommand> {
    if shift {
        seq![select]
    } else {
        seq![plain]
    }
}

/// The plan of a key press; see [`key_press_plan`]. The result is the
/// commands, whether the view scrolls to the cursor, and whether the text
/// changed.
pub open spec fn key_press_spec(key: Key, m: KeyboardModifiers, platform: Platform) -> (
    Seq<EditCommand>,
    bool,
    bool,
) {
    let (shift, action, word) = shortcut_mods(m, platform);
    let mac = platform == Platform::MacOs;
    match key {
        Key::Character(c) => if platform == Platform::Windows && action && is_letter(c@, 'y', 'Y') {
            (seq![EditCommand::Redo], false, true)
        } else if action && is_letter(c@, 'z', 'Z') {
            (if shift {
                seq![EditCommand::Redo]
            } else {
                seq![EditCommand::Undo]
            }, false, true)
        } else if action && c@ == seq!['c'] {
            (seq![EditCommand::Copy], false, false)
        } else if action && c@ == seq!['x'] {
            (seq![EditCommand::Cut], false, true)
        } else if action && c@ == seq!['v'] {
            (seq![EditCommand::Paste], false, true)
        } else if action && is_letter(c@, 'a', 'A') {
            (if shift {
                seq![EditCommand::CollapseSelection]
            } else {
                seq![EditCommand::SelectAll]
            }, false, false)
        } else {
            (seq![EditCommand::InsertOrReplace(c)], false, true)
        },
        Key::Named(n) => match n {
            NamedKey::ArrowLeft => (if mac && action {
                mv(shift, EditCommand::SelectToLineStart, EditCommand::MoveToLineStart)
            } else if word {
                mv(shift, EditCommand::SelectWordLeft, EditCommand::MoveWordLeft)
            } else {
                mv(shift, EditCommand::SelectLeft, EditCommand::MoveLeft)
            }, true, false),
            NamedKey::ArrowRight => (if mac && action {
                mv(shift, EditCommand::SelectToLineEnd, EditCommand::MoveToLineEnd)
            } else if word {
                mv(shift, EditCommand::SelectWordRight, EditCommand::MoveWordRight)
            } else {
                mv(shift, EditCommand::SelectRight, EditCommand::MoveRight)
            }, true, false),
            NamedKey::ArrowUp => (if mac && action {
                mv(shift, EditCommand::SelectToTextStart, EditCommand::MoveToTextStart)
            } else if word {
                if shift {
                    seq![EditCommand::SelectLeft, EditCommand::SelectToHardLineStart]
                } else {
                    seq![EditCommand::MoveLeft, EditCommand::MoveToHardLineStart]
                }
            } else {
                mv(shift, EditCommand::SelectUp, EditCommand::MoveUp)
            }, true, false),
            NamedKey::ArrowDown => (if mac && action {
                mv(shift, EditCommand::SelectToTextEnd, EditCommand::MoveToTextEnd)
            } else if word {
                if shift {
                    seq![EditCommand::SelectToHardLineEnd, EditCommand::SelectRight]
                } else {
                    seq![EditCommand::MoveToHardLineEnd, EditCommand::MoveRight]
                }
            } else {
                mv(shift, EditCommand::SelectDown, EditCommand::MoveDown)
            }, true, false),
            NamedKey::Home => (if action {
                mv(shift, EditCommand::SelectToTextStart, EditCommand::MoveToTextStart)
            } else {
                mv(shift, EditCommand::SelectToLineStart, EditCommand::MoveToLineStart)
            }, true, false),
            NamedKey::End => (if action {
                mv(shift, EditCommand::SelectToTextEnd, EditCommand::MoveToTextEnd)
            } else {
                mv(shift, EditCommand::SelectToLineEnd, EditCommand::MoveToLineEnd)
            }, true, false),
            NamedKey::Delete => (if word {
                seq![EditCommand::DeleteWord]
            } else {
                seq![EditCommand::Delete]
            }, false, true),
            NamedKey::Backspace => (if mac && action {
                seq![EditCommand::MoveAnchorToLineStart, EditCommand::DeleteSelection]
            } else if word {
                if mac {
                    seq![EditCommand::MoveAnchorWordLeft, EditCommand::DeleteSelection]
                } else {
                    seq![EditCommand::BackdeleteWord]
                }
            } else {
                seq![EditCommand::Backdelete]
            }, false, true),
            NamedKey::Enter => (seq![EditCommand::InsertNewline], false, true),
            _ => (Seq::empty(), false, false),
        },
        _ => (Seq::empty(), false, false),
    }
}

/// Whether `s` is the one character `c`.
fn is_char(s: &String, c: char) -> (r: bool)
    ensures
        r == (s@ == seq![c]),
{
    let t = s.as_str();
    if t.unicode_len() == 1 {
        let first = t.get_char(0);
        proof {
            if first == c {
                assert(s@ =~= seq![c]);
            }
        }
        first == c
    } else {
        false
    }
}

/// Builds the one-step command list of a move or its selecting form.
fn mv_exec(shift: bool, select: EditCommand, plain: EditCommand) -> (r: Vec<EditCommand>)
    ensures
        r@ == mv(shift, select, plain),
{
    let mut v: Vec<EditCommand> = Vec::new();
    if shift {
        v.push(select);
    } else {
        v.push(plain);
    }
    assert(v@ =~= mv(shift, select, plain));
    v
}

fn one(c: EditCommand) -> (r: Vec<EditCommand>)
    ensures
        r@ == seq![c],
{
    let mut v: Vec<EditCommand> = Vec::new();
    v.push(c);
    assert(v@ =~= seq![c]);
    v
}

fn two(a: EditCommand, b: EditCommand) -> (r: Vec<EditCommand>)
    ensures
        r@ == seq![a, b],
{
    let mut v: Vec<EditCommand> = Vec::new();
    v.push(a);
    v.push(b);
    assert(v@ =~= seq![a, b]);
    v
}

/// Turns a key press into editing commands. Actions (undo, redo, clipboard,
/// select all) need the action modifier; the arrows move by character, by
/// word with the word modifier, and to line or text ends with the action
/// modifier on macOS; shift turns moves into selections. Typed text replaces
/// the selection.
pub fn key_press_plan(key: &Key, modifiers: KeyboardModifiers, platform: Platform) -> (r: KeyPressPlan)
    ensures
        (r.commands@, r.scroll_to_cursor, r.text_changed) == key_press_spec(*key, modifiers, platform),
{
    let mac = platform == Platform::MacOs;
    let shift = modifiers.shift;
    let action = if mac {
        modifiers.meta
    } else {
        modifiers.control
    };
    let word = if mac {
        modifiers.alt
    } else {
        modifiers.control
    };
    let (commands, scroll_to_cursor, text_changed) = match key {
        Key::Character(c) => {
            if platform == Platform::Windows && action && (is_char(c, 'y') || is_char(c, 'Y')) {
                (one(EditCommand::Redo), false, true)
            } else if action && (is_char(c, 'z') || is_char(c, 'Z')) {
                (if shift {
                    one(EditCommand::Redo)
                } else {
                    one(EditCommand::Undo)
                }, false, true)
            } else if action && is_char(c, 'c') {
                (one(EditCommand::Copy), false, false)
            } else if action && is_char(c, 'x') {
                (one(EditCommand::Cut), false, true)
            } else if action && is_char(c, 'v') {
                (one(EditCommand::Paste), false, true)
            } else if action && (is_char(c, 'a') || is_char(c, 'A')) {
                (if shift {
                    one(EditCommand::CollapseSelection)
                } else {
                    one(EditCommand::SelectAll)
                }, false, false)
            } else {
                (one(EditCommand::InsertOrReplace(c.clone())), false, true)
            }
        },
        Key::Named(n) => match n {
            NamedKey::ArrowLeft => (if mac && action {
                mv_exec(shift, EditCommand::SelectToLineStart, EditCommand::MoveToLineStart)
            } else if word {
                mv_exec(shift, EditCommand::SelectWordLeft, EditCommand::MoveWordLeft)
            } else {
                mv_exec(shift, EditCommand::SelectLeft, EditCommand::MoveLeft)
            }, true, false),
            NamedKey::ArrowRight => (if mac && action {
                mv_exec(shift, EditCommand::SelectToLineEnd, EditCommand::MoveToLineEnd)
            } else if word {
                mv_exec(shift, EditCommand::SelectWordRight, EditCommand::MoveWordRight)
            } else {
                mv_exec(shift, EditCommand::SelectRight, EditCommand::MoveRight)
            }, true, false),
            NamedKey::ArrowUp => (if mac && action {
                mv_exec(shift, EditCommand::SelectToTextStart, EditCommand::MoveToTextStart)
            } else if word {
                if shift {
                    two(EditCommand::SelectLeft, EditCommand::SelectToHardLineStart)
                } else {
                    two(EditCommand::MoveLeft, EditCommand::MoveToHardLineStart)
                }
            } else {
                mv_exec(shift, EditCommand::SelectUp, EditCommand::MoveUp)
            }, true, false),
            NamedKey::ArrowDown => (if mac && action {
                mv_exec(shift, EditCommand::SelectToTextEnd, EditCommand::MoveToTextEnd)
            } else if word {
                if shift {
                    two(EditCommand::SelectToHardLineEnd, EditCommand::SelectRight)
                } else {
                    two(EditCommand::MoveToHardLineEnd, EditCommand::MoveRight)
                }
            } else {
                mv_exec(shift, EditCommand::SelectDown, EditCommand::MoveDown)
            }, true, false),
            NamedKey::Home => (if action {
                mv_exec(shift, EditCommand::SelectToTextStart, EditCommand::MoveToTextStart)
            } else {
                mv_exec(shift, EditCommand::SelectToLineStart, EditCommand::MoveToLineStart)
            }, true, false),
            NamedKey::End => (if action {
                mv_exec(shift, EditCommand::SelectToTextEnd, EditCommand::MoveToTextEnd)
            } else {
                mv_exec(shift, EditCommand::SelectToLineEnd, EditCommand::MoveToLineEnd)
            }, true, false),
            NamedKey::Delete => (if word {
                one(EditCommand::DeleteWord)
            } else {
                one(EditCommand::Delete)
            }, false, true),
            NamedKey::Backspace => (if mac && action {
                two(EditCommand::MoveAnchorToLineStart, EditCommand::DeleteSelection)
            } else if word {
                if mac {
                    two(EditCommand::MoveAnchorWordLeft, EditCommand::DeleteSelection)
                } else {
                    one(EditCommand::BackdeleteWord)
                }
            } else {
                one(EditCommand::Backdelete)
            }, false, true),
            NamedKey::Enter => (one(EditCommand::InsertNewline), false, true),
            _ => (Vec::new(), false, false),
        },
        _ => (Vec::new(), false, false),
    };
    KeyPressPlan { commands, scroll_to_cursor, text_changed }
}

/// What an application message asks of a text input: copying always
/// works, pasting and cutting only when the input is enabled.
pub fn message_command(message: TextInputMessage, disabled: bool) -> (r: Option<EditCommand>)
    ensures
        r == (match message {
            TextInputMessage::Copy => Some(EditCommand::Copy),
            TextInputMessage::Paste => if disabled { None } else { Some(EditCommand::Paste) },
            TextInputMessage::Cut => if disabled { None } else { Some(EditCommand::Cut) },
        }),
{
    match message {
        TextInputMessage::Copy => Some(EditCommand::Copy),
        TextInputMessage::Paste => if disabled {
            None
        } else {
            Some(EditCommand::Paste)
        },
        TextInputMessage::Cut => if disabled {
            None
        } else {
            Some(EditCommand::Cut)
        },
    }
}

/// The text a paste inserts: what the clipboard holds, or nothing when it
/// could not be read.
pub fn paste(clipboard: Option<String>) -> (r: String)
    ensures
        clipboard matches Some(t) ==> r == t,
        clipboard is None ==> r@ == Seq::<char>::empty(),
{
    match clipboard {
        Some(t) => t,
        None => String::new(),
    }
}

/// The text a copy puts on the clipboard: the selection, if any.
pub fn copy(selected: Option<&str>) -> (r: Option<String>)
    ensures
        r is Some <==> selected is Some,
        r matches Some(t) ==> t@ == selected.unwrap()@,
{
    match selected {
        Some(s) => Some(s.to_string()),
        None => None,
    }
}

/// What a cut does: the selection, if any, goes to the clipboard and is
/// then deleted; with no selection nothing happens.
pub fn cut(selected: Option<&str>) -> (r: (Option<String>, bool))
    ensures
        r.0 is Some <==> selected is Some,
        r.0 matches Some(t) ==> t@ == selected.unwrap()@,
        r.1 == (selected is Some),
{
    (copy(selected), selected.is_some())
}

/// What a text input does with an event, once scrolling is dealt with.
#[derive(Clone, Debug, PartialEq, Eq)]
pub enum TextInputStep {
    /// Nothing.
    Ignore,
    /// Focus gained: start the cursor blink, and enable the input method
    /// unless the input is disabled.
    StartEditing { enable_ime: bool },
    /// Focus lost: stop the blink and disable the input method.
    StopEditing,
    /// The input method is composing and owns the key; it goes no further.
    ImeOwnsKey,
    /// The key edits the text (see [`key_press_plan`]); it goes no further.
    KeyPress,
    /// A left press: take focus and the pointer, and place the cursor.
    PointerPress,
    /// A left release.
    PointerRelease,
    /// The pointer moved: extend a selection being dragged.
    PointerMove,
    /// The input method was disabled.
    ImeDisabled,
    /// The input method was enabled.
    ImeEnabled,
    /// The input method committed this text; it replaces the selection.
    ImeCommit(String),
    /// The input method is composing this text, with the cursor range in it.
    ImePreedit(String, Option<(usize, usize)>),
    /// The input method deletes text around the cursor, in bytes.
    ImeDeleteSurrounding { before_bytes: usize, after_bytes: usize },
}

/// Whether the input method owns a key event: the input is focused and the
/// key comes while text is being composed.
pub open spec fn ime_owns_key(focused: bool, editor_composing: bool, event: EventKind) -> bool {
    focused && match event {
        EventKind::KeyDown(k) => k.is_composing || editor_composing,
        EventKind::KeyUp(k) => k.is_composing || editor_composing,
        _ => false,
    }
}

/// Whether the text input keeps a key from its scrolling container: keys
/// the input method owns, and the vertical navigation keys.
pub open spec fn owns_scroll_key(focused: bool, editor_composing: bool, event: EventKind) -> bool {
    ime_owns_key(focused, editor_composing, event) || match event {
        EventKind::KeyDown(k) => is_vertical_nav(k.key),
        EventKind::KeyUp(k) => is_vertical_nav(k.key),
        _ => false,
    }
}

pub open spec fn is_vertical_nav(key: Key) -> bool {
    key == Key::Named(NamedKey::ArrowUp) || key == Key::Named(NamedKey::ArrowDown) || key == Key::Named(NamedKey::Home)
        || key == Key::Named(NamedKey::End)
}

/// The step of [`text_input_step`].
pub open spec fn step_spec(focused: bool, disabled: bool, editor_composing: bool, event: EventKind) -> TextInputStep {
    match event {
        EventKind::Focus(_) => TextInputStep::StartEditing { enable_ime: !disabled },
        EventKind::Unfocus(_) => TextInputStep::StopEditing,
        EventKind::KeyDown(k) => key_step(focused, disabled, editor_composing, event, k.state),
        EventKind::KeyUp(k) => key_step(focused, disabled, editor_composing, event, k.state),
        EventKind::PointerDown(p) => if p.button == Some(PointerButton::Left) {
            TextInputStep::PointerPress
        } else {
            TextInputStep::Ignore
        },
        EventKind::PointerUp(p) => if p.button == Some(PointerButton::Left) {
            TextInputStep::PointerRelease
        } else {
            TextInputStep::Ignore
        },
        EventKind::PointerMoved(_) => TextInputStep::PointerMove,
        EventKind::Ime(i) => match i.ime {
            Ime::Disabled => TextInputStep::ImeDisabled,
            Ime::Enabled => TextInputStep::ImeEnabled,
            Ime::Commit(t) => TextInputStep::ImeCommit(t),
            Ime::Preedit(t, c) => TextInputStep::ImePreedit(t, c),
            Ime::DeleteSurrounding { before_bytes, after_bytes } => TextInputStep::ImeDeleteSurrounding {
                before_bytes,
                after_bytes,
            },
        },
        _ => TextInputStep::Ignore,
    }
}

pub open spec fn key_step(
    focused: bool,
    disabled: bool,
    editor_composing: bool,
    event: EventKind,
    state: ElementState,
) -> TextInputStep {
    if ime_owns_key(focused, editor_composing, event) {
        TextInputStep::ImeOwnsKey
    } else if editor_composing || disabled || state != ElementState::Pressed || !focused {
        TextInputStep::Ignore
    } else {
        TextInputStep::KeyPress
    }
}

/// Decides what a text input does with an event that its scrolling did not
/// consume. A key the input method owns, and a key that edits, have their
/// propagation stopped. `None` when the event's default handling was
/// prevented, which leaves the input alone.
pub fn text_input_step(focused: bool, disabled: bool, editor_composing: bool, event: &mut EventKind) -> (r: Option<
    TextInputStep,
>)
    requires
        (*old(event) matches EventKind::PointerDown(p) && p.button == Some(PointerButton::Left)
            && !old(event).base_view().prevented()) ==> old(event).spec_pointer_id() is Some,
    ensures
        old(event).base_view().prevented() ==> r is None && *final(event) == *old(event),
        !old(event).base_view().prevented() ==> r == Some(step_spec(focused, disabled, editor_composing, *old(event))),
        r == Some(TextInputStep::ImeOwnsKey) || r == Some(TextInputStep::KeyPress) ==> *final(event)
            == old(event).with_base(old(event).base_view().with_stopped()),
        !(r == Some(TextInputStep::ImeOwnsKey) || r == Some(TextInputStep::KeyPress)) ==> *final(event) == *old(event),
{
    if event.is_default_prevented() {
        return None;
    }
    let step = match event {
        EventKind::Focus(_) => TextInputStep::StartEditing { enable_ime: !disabled },
        EventKind::Unfocus(_) => TextInputStep::StopEditing,
        EventKind::KeyDown(k) => key_step_of(focused, disabled, editor_composing, k),
        EventKind::KeyUp(k) => key_step_of(focused, disabled, editor_composing, k),
        EventKind::PointerDown(p) => if p.button == Some(PointerButton::Left) {
            TextInputStep::PointerPress
        } else {
            TextInputStep::Ignore
        },
        EventKind::PointerUp(p) => if p.button == Some(PointerButton::Left) {
            TextInputStep::PointerRelease
        } else {
            TextInputStep::Ignore
        },
        EventKind::PointerMoved(_) => TextInputStep::PointerMove,
        EventKind::Ime(i) => match &i.ime {
            Ime::Disabled => TextInputStep::ImeDisabled,
            Ime::Enabled => TextInputStep::ImeEnabled,
            Ime::Commit(t) => TextInputStep::ImeCommit(t.clone()),
            Ime::Preedit(t, c) => TextInputStep::ImePreedit(t.clone(), *c),
            Ime::DeleteSurrounding { before_bytes, after_bytes } => TextInputStep::ImeDeleteSurrounding {
                before_bytes: *before_bytes,
                after_bytes: *after_bytes,
            },
        },
        _ => TextInputStep::Ignore,
    };
    let stops = match step {
        TextInputStep::ImeOwnsKey | TextInputStep::KeyPress => true,
        _ => false,
    };
    if stops {
        event.stop_propagation();
    }
    Some(step)
}

fn key_step_of(focused: bool, disabled: bool, editor_composing: bool, k: &KeyboardEvent) -> (r: TextInputStep)
    ensures
        r == (if focused && (k.is_composing || editor_composing) {
            TextInputStep::ImeOwnsKey
        } else if editor_composing || disabled || k.state != ElementState::Pressed || !focused {
            TextInputStep::Ignore
        } else {
            TextInputStep::KeyPress
        }),
{
    if focused && (k.is_composing || editor_composing) {
        TextInputStep::ImeOwnsKey
    } else if editor_composing || disabled || !k.state.is_pressed() || !focused {
        TextInputStep::Ignore
    } else {
        TextInputStep::KeyPress
    }
}

/// Whether the text input leaves a key to its scrolling container.
pub fn container_scrolls_for(focused: bool, editor_composing: bool, event: &EventKind) -> (r: bool)
    ensures
        r == !owns_scroll_key(focused, editor_composing, *event),
{
    let owned = match event {
        EventKind::KeyDown(k) => owns_key(focused, editor_composing, k),
        EventKind::KeyUp(k) => owns_key(focused, editor_composing, k),
        _ => false,
    };
    !owned
}

fn owns_key(focused: bool, editor_composing: bool, k: &KeyboardEvent) -> (r: bool)
    ensures
        r == ((focused && (k.is_composing || editor_composing)) || is_vertical_nav(k.key)),
{
    (focused && (k.is_composing || editor_composing)) || match &k.key {
        Key::Named(n) => match n {
            NamedKey::ArrowUp | NamedKey::ArrowDown | NamedKey::Home | NamedKey::End => true,
            _ => false,
        },
        _ => false,
    }
}

/// Marks the element kinds whose text the editor can set.
pub trait Sealed {
}

/// The clipboard shortcuts: with the action modifier held (command on
/// macOS, control elsewhere), whatever else is held, X cuts the selection
/// and changes the text, C copies it and leaves the text as it is, and V
/// pastes and changes the text; each gives exactly its one command and does
/// not scroll.
pub proof fn lemma_clipboard_shortcuts(key: Key, m: KeyboardModifiers, platform: Platform)
    requires
        (if platform == Platform::MacOs {
            m.meta
        } else {
            m.control
        }),
        key is Character,
    ensures
        key->Character_0@ == seq!['x'] ==> {
            &&& key_press_spec(key, m, platform).0 =~= seq![EditCommand::Cut]
            &&& key_press_spec(key, m, platform).2
            &&& !key_press_spec(key, m, platform).1
        },
        key->Character_0@ == seq!['c'] ==> {
            &&& key_press_spec(key, m, platform).0 =~= seq![EditCommand::Copy]
            &&& !key_press_spec(key, m, platform).2
            &&& !key_press_spec(key, m, platform).1
        },
        key->Character_0@ == seq!['v'] ==> {
            &&& key_press_spec(key, m, platform).0 =~= seq![EditCommand::Paste]
            &&& key_press_spec(key, m, platform).2
            &&& !key_press_spec(key, m, platform).1
        },
{
    let c = key->Character_0@;
    let others = seq![seq!['y'], seq!['Y'], seq!['z'], seq!['Z'], seq!['c'], seq!['x']];
    assert forall|i: int| 0 <= i < others.len() && c.len() == 1 && c[0] != others[i][0] implies c != others[i] by {
        assert(others[i].len() == 1);
        if c == others[i] {
            assert(c[0] == others[i][0]);
        }
    }
    assert(seq!['x'][0] == 'x' && seq!['c'][0] == 'c' && seq!['v'][0] == 'v');
    assert(others[0][0] == 'y' && others[1][0] == 'Y' && others[2][0] == 'z' && others[3][0] == 'Z');
    assert(others[4][0] == 'c' && others[5][0] == 'x');
}

/// Undo, redo and select all: with the action modifier held, Z undoes and
/// shift+Z redoes, and on Windows Y redoes too, each changing the text; A
/// selects everything and shift+A collapses the selection, leaving the text
/// as it is.
pub proof fn lemma_history_and_select_all(key: Key, m: KeyboardModifiers, platform: Platform)
    requires
        (if platform == Platform::MacOs {
            m.meta
        } else {
            m.control
        }),
        key is Character,
    ensures
        key->Character_0@ == seq!['z'] ==> key_press_spec(key, m, platform) == (if m.shift {
            seq![EditCommand::Redo]
        } else {
            seq![EditCommand::Undo]
        }, false, true),
        key->Character_0@ == seq!['y'] && platform == Platform::Windows ==> key_press_spec(key, m, platform) == (
            seq![EditCommand::Redo],
            false,
            true,
        ),
        key->Character_0@ == seq!['a'] ==> key_press_spec(key, m, platform) == (if m.shift {
            seq![EditCommand::CollapseSelection]
        } else {
            seq![EditCommand::SelectAll]
        }, false, false),
{
    let c = key->Character_0@;
    assert(seq!['z'][0] == 'z' && seq!['y'][0] == 'y' && seq!['a'][0] == 'a');
    assert(seq!['Y'][0] == 'Y' && seq!['Z'][0] == 'Z');
    if c == seq!['z'] {
        assert(c != seq!['y'] && c != seq!['Y']);
    }
    if c == seq!['a'] {
        assert(c != seq!['y'] && c != seq!['Y'] && c != seq!['z'] && c != seq!['Z']);
        assert(c != seq!['c'] && c != seq!['x'] && c != seq!['v']) by {
            assert(seq!['c'][0] == 'c' && seq!['x'][0] == 'x' && seq!['v'][0] == 'v');
        }
    }
}

/// Typing: without the action modifier, a character key inserts its text
/// in place of the selection, changing the text, and does not scroll.
pub proof fn lemma_typing_inserts(key: Key, m: KeyboardModifiers, platform: Platform)
    requires
        !(if platform == Platform::MacOs {
            m.meta
        } else {
            m.control
        }),
        key is Character,
    ensures
        key_press_spec(key, m, platform) == (seq![EditCommand::InsertOrReplace(key->Character_0)], false, true),
{
}

/// Plain moves: without the action or word modifier, the arrows move the
/// cursor one step in their direction and Home and End to the ends of the
/// line; with shift each extends the selection the same way instead. Moves
/// scroll to the cursor and never change the text.
pub proof fn lemma_plain_moves(n: NamedKey, m: KeyboardModifiers, platform: Platform)
    requires
        !m.control,
        platform == Platform::MacOs ==> !m.meta && !m.alt,
    ensures
        ({
            let (cmds, scroll, changed) = key_press_spec(Key::Named(n), m, platform);
            let pick = |select: EditCommand, plain: EditCommand| if m.shift {
                seq![select]
            } else {
                seq![plain]
            };
            &&& n == NamedKey::ArrowLeft ==> cmds == pick(EditCommand::SelectLeft, EditCommand::MoveLeft)
            &&& n == NamedKey::ArrowRight ==> cmds == pick(EditCommand::SelectRight, EditCommand::MoveRight)
            &&& n == NamedKey::ArrowUp ==> cmds == pick(EditCommand::SelectUp, EditCommand::MoveUp)
            &&& n == NamedKey::ArrowDown ==> cmds == pick(EditCommand::SelectDown, EditCommand::MoveDown)
            &&& n == NamedKey::Home ==> cmds == pick(EditCommand::SelectToLineStart, EditCommand::MoveToLineStart)
            &&& n == NamedKey::End ==> cmds == pick(EditCommand::SelectToLineEnd, EditCommand::MoveToLineEnd)
            &&& (n == NamedKey::ArrowLeft || n == NamedKey::ArrowRight || n == NamedKey::ArrowUp || n
                == NamedKey::ArrowDown || n == NamedKey::Home || n == NamedKey::End) ==> scroll && !changed
        }),
{
}

/// Plain deletion and new lines: without the action or word modifier,
/// Backspace deletes backwards, Delete forwards and Enter starts a new
/// line; each changes the text and none scrolls.
pub proof fn lemma_plain_edits(n: NamedKey, m: KeyboardModifiers, platform: Platform)
    requires
        !m.control,
        platform == Platform::MacOs ==> !m.meta && !m.alt,
    ensures
        n == NamedKey::Backspace ==> key_press_spec(Key::Named(n), m, platform) == (seq![EditCommand::Backdelete], false, true),
        n == NamedKey::Delete ==> key_press_spec(Key::Named(n), m, platform) == (seq![EditCommand::Delete], false, true),
        n == NamedKey::Enter ==> key_press_spec(Key::Named(n), m, platform) == (seq![EditCommand::InsertNewline], false, true),
{
}

} // verus!
