//! Typed events and the dispatch controls they share.
//!
//! Every concrete event carries a [`BaseEvent`]: the element it was dispatched
//! at, the element whose handlers run, and the two dispatch flags. The
//! [`Event`] trait gives each event the same controls over that state.

use vstd::prelude::*;

use crate::store::DynElement;

verus! {

/// The kind of tablet tool behind a pointer.
#[derive(Clone, Copy, Debug, PartialEq, Eq, Hash, Structural)]
pub enum TabletToolKind {
    Pen,
    Eraser,
    Brush,
    Pencil,
    Airbrush,
    Finger,
    Mouse,
    Lens,
}

/// Identifies a pointer: the mouse, one finger, one tablet tool, or an
/// unknown device.
#[derive(Clone, Copy, Debug, PartialEq, Eq, Hash, Structural)]
pub enum PointerId {
    Mouse,
    /// A finger, by the id the platform gave it.
    Touch(u64),
    TabletTool(TabletToolKind),
    Unknown,
}

/// The device that moved a pointer.
#[derive(Clone, Copy, Debug, PartialEq, Eq, Structural)]
pub enum PointerSource {
    Mouse,
    Touch { finger_id: u64 },
    TabletTool { kind: TabletToolKind },
    Unknown,
}

/// A mouse button, or the button a touch or tool press stands for.
#[derive(Clone, Copy, Debug, PartialEq, Eq, Hash, Structural)]
pub enum PointerButton {
    Left,
    Right,
    Middle,
    Back,
    Forward,
    Other(u16),
}

/// The device that pressed or released a pointer button.
#[derive(Clone, Copy, Debug, PartialEq, Eq, Structural)]
pub enum ButtonSource {
    Mouse(PointerButton),
    Touch { finger_id: u64 },
    TabletTool { kind: TabletToolKind },
    Unknown(u16),
}

/// The broad class of device that generated a pointer event.
#[derive(Clone, Copy, Debug, PartialEq, Eq, Structural)]
pub enum PointerType {
    Mouse,
    Pen,
    Touch,
    Unknown,
}

impl Default for PointerType {
    fn default() -> (r: PointerType)
        ensures
            r == PointerType::Unknown,
    {
        PointerType::Unknown
    }
}

/// The class of device a pointer id belongs to.
pub open spec fn pointer_type_of(id: PointerId) -> PointerType {
    match id {
        PointerId::Mouse => PointerType::Mouse,
        PointerId::Touch(_) => PointerType::Touch,
        PointerId::TabletTool(_) => PointerType::Pen,
        PointerId::Unknown => PointerType::Unknown,
    }
}

/// The pointer id of the device that moved a pointer.
pub open spec fn source_pointer_id(source: PointerSource) -> PointerId {
    match source {
        PointerSource::Mouse => PointerId::Mouse,
        PointerSource::Touch { finger_id } => PointerId::Touch(finger_id),
        PointerSource::TabletTool { kind } => PointerId::TabletTool(kind),
        PointerSource::Unknown => PointerId::Unknown,
    }
}

/// The pointer id of the device that pressed a button.
pub open spec fn button_pointer_id(source: ButtonSource) -> PointerId {
    match source {
        ButtonSource::Mouse(_) => PointerId::Mouse,
        ButtonSource::Touch { finger_id } => PointerId::Touch(finger_id),
        ButtonSource::TabletTool { kind } => PointerId::TabletTool(kind),
        ButtonSource::Unknown(_) => PointerId::Unknown,
    }
}

/// Stable identifying information for a pointer interaction.
#[derive(Clone, Copy, Debug, PartialEq, Eq, Structural)]
pub struct PointerInfo {
    pub pointer_id: Option<PointerId>,
    pub pointer_type: PointerType,
    pub primary: bool,
}

impl PointerInfo {
    /// The pointer's id, if known.
    pub open spec fn id_of(&self) -> Option<PointerId> {
        self.pointer_id
    }

    /// The class of the pointer's device.
    pub open spec fn type_of(&self) -> PointerType {
        self.pointer_type
    }

    /// Whether this is the primary pointer of its kind.
    pub open spec fn primary(&self) -> bool {
        self.primary
    }

    /// The information of a pointer with a known id.
    pub fn new(pointer_id: PointerId, primary: bool) -> (r: PointerInfo)
        ensures
            r.id_of() == Some(pointer_id),
            r.type_of() == pointer_type_of(pointer_id),
            r.primary() == primary,
    {
        let pointer_type = match pointer_id {
            PointerId::Mouse => PointerType::Mouse,
            PointerId::Touch(_) => PointerType::Touch,
            PointerId::TabletTool(_) => PointerType::Pen,
            PointerId::Unknown => PointerType::Unknown,
        };
        PointerInfo { pointer_id: Some(pointer_id), pointer_type, primary }
    }

    /// The pointer's id, if known.
    pub fn id(&self) -> (r: Option<PointerId>)
        ensures
            r == self.id_of(),
    {
        self.pointer_id
    }

    /// Whether this is the primary pointer of its kind.
    pub fn is_primary_pointer(&self) -> (r: bool)
        ensures
            r == self.primary(),
    {
        self.primary
    }

    /// The information of the pointer that a move came from.
    pub fn from_source(source: &PointerSource, primary: bool) -> (r: PointerInfo)
        ensures
            r.id_of() == Some(source_pointer_id(*source)),
            r.type_of() == pointer_type_of(source_pointer_id(*source)),
            r.primary() == primary,
    {
        let pointer_id = match source {
            PointerSource::Mouse => PointerId::Mouse,
            PointerSource::Touch { finger_id } => PointerId::Touch(*finger_id),
            PointerSource::TabletTool { kind } => PointerId::TabletTool(*kind),
            PointerSource::Unknown => PointerId::Unknown,
        };
        Self::new(pointer_id, primary)
    }

    /// The information of the pointer that a button press came from.
    pub fn from_button(source: &ButtonSource, primary: bool) -> (r: PointerInfo)
        ensures
            r.id_of() == Some(button_pointer_id(*source)),
            r.type_of() == pointer_type_of(button_pointer_id(*source)),
            r.primary() == primary,
    {
        let pointer_id = match source {
            ButtonSource::Mouse(_) => PointerId::Mouse,
            ButtonSource::Touch { finger_id } => PointerId::Touch(*finger_id),
            ButtonSource::TabletTool { kind } => PointerId::TabletTool(*kind),
            ButtonSource::Unknown(_) => PointerId::Unknown,
        };
        Self::new(pointer_id, primary)
    }
}

/// State shared by every event.
#[derive(Clone, Copy, Debug, PartialEq, Eq, Structural)]
pub struct BaseEvent {
    target: DynElement,
    current_target: DynElement,
    propagation_stopped: bool,
    default_prevented: bool,
}

impl BaseEvent {
    /// The element at which the event was dispatched.
    pub closed spec fn target_of(self) -> DynElement {
        self.target
    }

    /// The element whose handlers are being invoked.
    pub closed spec fn current_target_of(self) -> DynElement {
        self.current_target
    }

    /// Whether propagation has been stopped.
    pub closed spec fn stopped(self) -> bool {
        self.propagation_stopped
    }

    /// Whether default handling has been prevented.
    pub closed spec fn prevented(self) -> bool {
        self.default_prevented
    }

    /// The same state with propagation stopped.
    pub closed spec fn with_stopped(self) -> BaseEvent {
        BaseEvent { propagation_stopped: true, ..self }
    }

    /// The same state with default handling prevented.
    pub closed spec fn with_prevented(self) -> BaseEvent {
        BaseEvent { default_prevented: true, ..self }
    }

    /// The same flags with both targets at `target`.
    pub closed spec fn retargeted(self, target: DynElement) -> BaseEvent {
        BaseEvent { target, current_target: target, ..self }
    }

    /// The base of a fresh event dispatched at `target`.
    pub closed spec fn fresh_at(target: DynElement) -> BaseEvent {
        BaseEvent { target, current_target: target, propagation_stopped: false, default_prevented: false }
    }

    /// There is one fresh base per target.
    pub proof fn lemma_fresh_unique(b: BaseEvent, target: DynElement)
        requires
            b.fresh(target),
        ensures
            b == BaseEvent::fresh_at(target),
    {
    }

    /// The fresh base at `target` is fresh there.
    pub proof fn lemma_fresh_at_is_fresh(target: DynElement)
        ensures
            BaseEvent::fresh_at(target).fresh(target),
    {
    }

    /// The base of a fresh event dispatched at `target`.
    pub open spec fn fresh(self, target: DynElement) -> bool {
        &&& self.target_of() == target
        &&& self.current_target_of() == target
        &&& !self.stopped()
        &&& !self.prevented()
    }

    /// A fresh base at `target`: both targets are `target`, neither flag set.
    pub fn new(target: DynElement) -> (r: BaseEvent)
        ensures
            r.fresh(target),
    {
        BaseEvent { target, current_target: target, propagation_stopped: false, default_prevented: false }
    }

    /// Points both targets at `target`, keeping the flags.
    pub fn retarget(&mut self, target: DynElement)
        ensures
            *final(self) == old(self).retargeted(target),
            final(self).target_of() == target,
            final(self).current_target_of() == target,
            final(self).stopped() == old(self).stopped(),
            final(self).prevented() == old(self).prevented(),
    {
        self.target = target;
        self.current_target = target;
    }

    /// Sets the element whose handlers run next, keeping the rest.
    pub fn set_current_target(&mut self, current: DynElement)
        ensures
            final(self).target_of() == old(self).target_of(),
            final(self).current_target_of() == current,
            final(self).stopped() == old(self).stopped(),
            final(self).prevented() == old(self).prevented(),
    {
        self.current_target = current;
    }

    pub fn target(&self) -> (r: DynElement)
        ensures
            r == self.target_of(),
    {
        self.target
    }

    pub fn current_target(&self) -> (r: DynElement)
        ensures
            r == self.current_target_of(),
    {
        self.current_target
    }

    pub fn is_propagation_stopped(&self) -> (r: bool)
        ensures
            r == self.stopped(),
    {
        self.propagation_stopped
    }

    pub fn is_default_prevented(&self) -> (r: bool)
        ensures
            r == self.prevented(),
    {
        self.default_prevented
    }

    fn stop(&mut self)
        ensures
            *final(self) == old(self).with_stopped(),
            final(self).target_of() == old(self).target_of(),
            final(self).current_target_of() == old(self).current_target_of(),
            final(self).stopped(),
            final(self).prevented() == old(self).prevented(),
    {
        self.propagation_stopped = true;
    }

    fn prevent(&mut self)
        ensures
            *final(self) == old(self).with_prevented(),
            final(self).target_of() == old(self).target_of(),
            final(self).current_target_of() == old(self).current_target_of(),
            final(self).stopped() == old(self).stopped(),
            final(self).prevented(),
    {
        self.default_prevented = true;
    }
}

/// Behavior shared by every concrete event.
pub trait Event {
    /// The event's shared state.
    spec fn base_view(&self) -> BaseEvent;

    /// The event's shared state.
    fn base(&self) -> (r: &BaseEvent)
        ensures
            *r == self.base_view(),
    ;

    /// Replaces the event's shared state.
    fn set_base(&mut self, base: BaseEvent)
        ensures
            final(self).base_view() == base,
    ;

    /// Returns the element at which the event was dispatched.
    fn target(&self) -> (r: DynElement)
        ensures
            r == self.base_view().target_of(),
    {
        self.base().target()
    }

    /// Returns the element whose handlers are currently being invoked.
    fn current_target(&self) -> (r: DynElement)
        ensures
            r == self.base_view().current_target_of(),
    {
        self.base().current_target()
    }

    /// Stops the event from reaching any remaining elements.
    fn stop_propagation(&mut self)
        ensures
            final(self).base_view().target_of() == old(self).base_view().target_of(),
            final(self).base_view().current_target_of() == old(self).base_view().current_target_of(),
            final(self).base_view().stopped(),
            final(self).base_view().prevented() == old(self).base_view().prevented(),
    {
        let mut base = *self.base();
        base.stop();
        self.set_base(base);
    }

    /// Prevents the library's default handling for the event.
    fn prevent_default(&mut self)
        ensures
            final(self).base_view().target_of() == old(self).base_view().target_of(),
            final(self).base_view().current_target_of() == old(self).base_view().current_target_of(),
            final(self).base_view().stopped() == old(self).base_view().stopped(),
            final(self).base_view().prevented(),
    {
        let mut base = *self.base();
        base.prevent();
        self.set_base(base);
    }

    /// Returns whether propagation has been stopped.
    fn is_propagation_stopped(&self) -> (r: bool)
        ensures
            r == self.base_view().stopped(),
    {
        self.base().is_propagation_stopped()
    }

    /// Returns whether default handling has been prevented.
    fn is_default_prevented(&self) -> (r: bool)
        ensures
            r == self.base_view().prevented(),
    {
        self.base().is_default_prevented()
    }
}

/// A key with a name.
#[derive(Clone, Copy, Debug, PartialEq, Eq, Hash, Structural)]
pub enum NamedKey {
    Enter,
    Tab,
    Space,
    Escape,
    ArrowUp,
    ArrowDown,
    ArrowLeft,
    ArrowRight,
    Home,
    End,
    PageUp,
    PageDown,
    Backspace,
    Delete,
    F3,
    /// A named key that nothing in this library reacts to.
    Other,
}

/// The logical key of a keyboard event.
#[derive(Clone, Debug, PartialEq, Eq, Hash)]
pub enum Key {
    Named(NamedKey),
    /// The text the key produces.
    Character(String),
    Unidentified,
    Dead(Option<char>),
}

/// The physical key of a keyboard event.
#[derive(Clone, Copy, Debug, PartialEq, Eq, Hash, Structural)]
pub enum Code {
    Enter,
    NumpadEnter,
    Space,
    Escape,
    Tab,
    ArrowUp,
    ArrowDown,
    ArrowLeft,
    ArrowRight,
    Home,
    End,
    PageUp,
    PageDown,
    /// A physical key that nothing in this library reacts to.
    Other,
}

/// Where on the keyboard a key sits.
#[derive(Clone, Copy, Debug, PartialEq, Eq, Structural)]
pub enum Location {
    Standard,
    Left,
    Right,
    Numpad,
}

/// Whether a key or button was pressed or released.
#[derive(Clone, Copy, Debug, PartialEq, Eq, Structural)]
pub enum ElementState {
    Pressed,
    Released,
}

impl ElementState {
    pub fn is_pressed(&self) -> (r: bool)
        ensures
            r == (*self == ElementState::Pressed),
    {
        match self {
            ElementState::Pressed => true,
            ElementState::Released => false,
        }
    }
}

/// The modifier keys held during a keyboard event.
#[derive(Clone, Copy, Debug, Default, PartialEq, Eq, Structural)]
pub struct KeyboardModifiers {
    pub shift: bool,
    pub control: bool,
    pub alt: bool,
    pub meta: bool,
}

impl KeyboardModifiers {
    pub fn shift_key(&self) -> (r: bool)
        ensures
            r == self.shift,
    {
        self.shift
    }

    pub fn control_key(&self) -> (r: bool)
        ensures
            r == self.control,
    {
        self.control
    }

    pub fn alt_key(&self) -> (r: bool)
        ensures
            r == self.alt,
    {
        self.alt
    }

    pub fn meta_key(&self) -> (r: bool)
        ensures
            r == self.meta,
    {
        self.meta
    }
}

/// An input method event.
#[derive(Clone, Debug, PartialEq, Eq)]
pub enum Ime {
    Enabled,
    /// Text being composed, with the cursor range in it if any.
    Preedit(String, Option<(usize, usize)>),
    Commit(String),
    /// Delete text around the cursor, in bytes before and after it.
    DeleteSurrounding { before_bytes: usize, after_bytes: usize },
    Disabled,
}

/// What caused a click event.
#[derive(Clone, Debug)]
pub enum ClickTrigger {
    Pointer { button: Option<PointerButton> },
    Keyboard { key: Key },
    Accessibility,
    Programmatic,
}

/// A click, by a pointer, a key, assistive technology or the program.
#[derive(Clone, Debug)]
pub struct ClickEvent {
    pub base: BaseEvent,
    pub trigger: ClickTrigger,
}

impl ClickEvent {
    pub fn new(target: DynElement, trigger: ClickTrigger) -> (r: ClickEvent)
        ensures
            r.base_view().fresh(target),
            r.trigger == trigger,
    {
        ClickEvent { base: BaseEvent::new(target), trigger }
    }
}

impl Event for ClickEvent {
    open spec fn base_view(&self) -> BaseEvent {
        self.base
    }

    fn base(&self) -> (r: &BaseEvent) {
        &self.base
    }

    fn set_base(&mut self, base: BaseEvent)
        ensures
            *final(self) == (ClickEvent { base, ..*old(self) }),
    {
        self.base = base;
    }
}

/// A pointer button pressed or released.
#[derive(Clone, Debug)]
pub struct PointerButtonEvent {
    pub base: BaseEvent,
    pub button: Option<PointerButton>,
    pub pointer: PointerInfo,
}

impl PointerButtonEvent {
    pub fn new(target: DynElement, button: Option<PointerButton>, pointer: PointerInfo) -> (r: PointerButtonEvent)
        ensures
            r.base_view().fresh(target),
            r.button == button,
            r.pointer == pointer,
    {
        PointerButtonEvent { base: BaseEvent::new(target), button, pointer }
    }
}

impl Event for PointerButtonEvent {
    open spec fn base_view(&self) -> BaseEvent {
        self.base
    }

    fn base(&self) -> (r: &BaseEvent) {
        &self.base
    }

    fn set_base(&mut self, base: BaseEvent)
        ensures
            *final(self) == (PointerButtonEvent { base, ..*old(self) }),
    {
        self.base = base;
    }
}

/// A key pressed or released.
#[derive(Clone, Debug)]
pub struct KeyboardEvent {
    pub base: BaseEvent,
    pub state: ElementState,
    pub key: Key,
    pub code: Code,
    pub location: Location,
    pub modifiers: KeyboardModifiers,
    pub repeat: bool,
    pub is_composing: bool,
}

impl KeyboardEvent {
    pub fn new(target: DynElement, state: ElementState, key: Key, code: Code, location: Location, modifiers: KeyboardModifiers, repeat: bool, is_composing: bool) -> (r: KeyboardEvent)
        ensures
            r.base_view().fresh(target),
            r.state == state,
            r.code == code,
            r.location == location,
            r.modifiers == modifiers,
            r.repeat == repeat,
            r.is_composing == is_composing,
            r.key == key,
    {
        KeyboardEvent { base: BaseEvent::new(target), state, key, code, location, modifiers, repeat, is_composing }
    }
}

impl Event for KeyboardEvent {
    open spec fn base_view(&self) -> BaseEvent {
        self.base
    }

    fn base(&self) -> (r: &BaseEvent) {
        &self.base
    }

    fn set_base(&mut self, base: BaseEvent)
        ensures
            *final(self) == (KeyboardEvent { base, ..*old(self) }),
    {
        self.base = base;
    }
}

/// A semantic scroll notification.
#[derive(Clone, Debug)]
pub struct ScrollEvent {
    pub base: BaseEvent,
}

impl ScrollEvent {
    pub fn new(target: DynElement) -> (r: ScrollEvent)
        ensures
            r.base_view().fresh(target),
    {
        ScrollEvent { base: BaseEvent::new(target) }
    }
}

impl Event for ScrollEvent {
    open spec fn base_view(&self) -> BaseEvent {
        self.base
    }

    fn base(&self) -> (r: &BaseEvent) {
        &self.base
    }

    fn set_base(&mut self, base: BaseEvent)
        ensures
            *final(self) == (ScrollEvent { base, ..*old(self) }),
    {
        self.base = base;
    }
}

/// An element gaining focus.
#[derive(Clone, Debug)]
pub struct FocusEvent {
    pub base: BaseEvent,
}

impl FocusEvent {
    pub fn new(target: DynElement) -> (r: FocusEvent)
        ensures
            r.base_view().fresh(target),
    {
        FocusEvent { base: BaseEvent::new(target) }
    }
}

impl Event for FocusEvent {
    open spec fn base_view(&self) -> BaseEvent {
        self.base
    }

    fn base(&self) -> (r: &BaseEvent) {
        &self.base
    }

    fn set_base(&mut self, base: BaseEvent)
        ensures
            *final(self) == (FocusEvent { base, ..*old(self) }),
    {
        self.base = base;
    }
}

/// An element losing focus.
#[derive(Clone, Debug)]
pub struct UnfocusEvent {
    pub base: BaseEvent,
}

impl UnfocusEvent {
    pub fn new(target: DynElement) -> (r: UnfocusEvent)
        ensures
            r.base_view().fresh(target),
    {
        UnfocusEvent { base: BaseEvent::new(target) }
    }
}

impl Event for UnfocusEvent {
    open spec fn base_view(&self) -> BaseEvent {
        self.base
    }

    fn base(&self) -> (r: &BaseEvent) {
        &self.base
    }

    fn set_base(&mut self, base: BaseEvent)
        ensures
            *final(self) == (UnfocusEvent { base, ..*old(self) }),
    {
        self.base = base;
    }
}

/// A pointer entering an element.
#[derive(Clone, Debug)]
pub struct PointerEnterEvent {
    pub base: BaseEvent,
}

impl PointerEnterEvent {
    pub fn new(target: DynElement) -> (r: PointerEnterEvent)
        ensures
            r.base_view().fresh(target),
    {
        PointerEnterEvent { base: BaseEvent::new(target) }
    }
}

impl Event for PointerEnterEvent {
    open spec fn base_view(&self) -> BaseEvent {
        self.base
    }

    fn base(&self) -> (r: &BaseEvent) {
        &self.base
    }

    fn set_base(&mut self, base: BaseEvent)
        ensures
            *final(self) == (PointerEnterEvent { base, ..*old(self) }),
    {
        self.base = base;
    }
}

/// A pointer leaving an element.
#[derive(Clone, Debug)]
pub struct PointerLeaveEvent {
    pub base: BaseEvent,
}

impl PointerLeaveEvent {
    pub fn new(target: DynElement) -> (r: PointerLeaveEvent)
        ensures
            r.base_view().fresh(target),
    {
        PointerLeaveEvent { base: BaseEvent::new(target) }
    }
}

impl Event for PointerLeaveEvent {
    open spec fn base_view(&self) -> BaseEvent {
        self.base
    }

    fn base(&self) -> (r: &BaseEvent) {
        &self.base
    }

    fn set_base(&mut self, base: BaseEvent)
        ensures
            *final(self) == (PointerLeaveEvent { base, ..*old(self) }),
    {
        self.base = base;
    }
}

/// An element gaining or losing the capture of a pointer.
#[derive(Clone, Debug)]
pub struct PointerCaptureEvent {
    pub base: BaseEvent,
    pub pointer_id: PointerId,
}

impl PointerCaptureEvent {
    pub fn new(target: DynElement, pointer_id: PointerId) -> (r: PointerCaptureEvent)
        ensures
            r.base_view().fresh(target),
            r.pointer_id == pointer_id,
    {
        PointerCaptureEvent { base: BaseEvent::new(target), pointer_id }
    }
}

impl Event for PointerCaptureEvent {
    open spec fn base_view(&self) -> BaseEvent {
        self.base
    }

    fn base(&self) -> (r: &BaseEvent) {
        &self.base
    }

    fn set_base(&mut self, base: BaseEvent)
        ensures
            *final(self) == (PointerCaptureEvent { base, ..*old(self) }),
    {
        self.base = base;
    }
}

/// A pointer moving.
#[derive(Clone, Debug)]
pub struct PointerMovedEvent {
    pub base: BaseEvent,
    pub pointer: PointerInfo,
}

impl PointerMovedEvent {
    pub fn new(target: DynElement, pointer: PointerInfo) -> (r: PointerMovedEvent)
        ensures
            r.base_view().fresh(target),
            r.pointer == pointer,
    {
        PointerMovedEvent { base: BaseEvent::new(target), pointer }
    }
}

impl Event for PointerMovedEvent {
    open spec fn base_view(&self) -> BaseEvent {
        self.base
    }

    fn base(&self) -> (r: &BaseEvent) {
        &self.base
    }

    fn set_base(&mut self, base: BaseEvent)
        ensures
            *final(self) == (PointerMovedEvent { base, ..*old(self) }),
    {
        self.base = base;
    }
}

/// A scroll wheel or gesture over a pointer.
#[derive(Clone, Debug)]
pub struct PointerScrollEvent {
    pub base: BaseEvent,
    pub pointer: PointerInfo,
}

impl PointerScrollEvent {
    pub fn new(target: DynElement, pointer: PointerInfo) -> (r: PointerScrollEvent)
        ensures
            r.base_view().fresh(target),
            r.pointer == pointer,
    {
        PointerScrollEvent { base: BaseEvent::new(target), pointer }
    }
}

impl Event for PointerScrollEvent {
    open spec fn base_view(&self) -> BaseEvent {
        self.base
    }

    fn base(&self) -> (r: &BaseEvent) {
        &self.base
    }

    fn set_base(&mut self, base: BaseEvent)
        ensures
            *final(self) == (PointerScrollEvent { base, ..*old(self) }),
    {
        self.base = base;
    }
}

/// An input method event at an element.
#[derive(Clone, Debug)]
pub struct ImeEvent {
    pub base: BaseEvent,
    pub ime: Ime,
}

impl ImeEvent {
    pub fn new(target: DynElement, ime: Ime) -> (r: ImeEvent)
        ensures
            r.base_view().fresh(target),
            r.ime == ime,
    {
        ImeEvent { base: BaseEvent::new(target), ime }
    }
}

impl Event for ImeEvent {
    open spec fn base_view(&self) -> BaseEvent {
        self.base
    }

    fn base(&self) -> (r: &BaseEvent) {
        &self.base
    }

    fn set_base(&mut self, base: BaseEvent)
        ensures
            *final(self) == (ImeEvent { base, ..*old(self) }),
    {
        self.base = base;
    }
}

/// The text of a text input changed.
#[derive(Clone, Debug)]
pub struct TextInputChangedEvent {
    pub base: BaseEvent,
    pub value: String,
}

impl TextInputChangedEvent {
    pub fn new(target: DynElement, value: String) -> (r: TextInputChangedEvent)
        ensures
            r.base_view().fresh(target),
            r.value == value,
    {
        TextInputChangedEvent { base: BaseEvent::new(target), value }
    }
}

impl Event for TextInputChangedEvent {
    open spec fn base_view(&self) -> BaseEvent {
        self.base
    }

    fn base(&self) -> (r: &BaseEvent) {
        &self.base
    }

    fn set_base(&mut self, base: BaseEvent)
        ensures
            *final(self) == (TextInputChangedEvent { base, ..*old(self) }),
    {
        self.base = base;
    }
}

/// A link in rendered text was clicked.
#[derive(Clone, Debug)]
pub struct LinkClickedEvent {
    pub base: BaseEvent,
    pub url: String,
}

impl LinkClickedEvent {
    pub fn new(target: DynElement, url: String) -> (r: LinkClickedEvent)
        ensures
            r.base_view().fresh(target),
            r.url == url,
    {
        LinkClickedEvent { base: BaseEvent::new(target), url }
    }
}

impl Event for LinkClickedEvent {
    open spec fn base_view(&self) -> BaseEvent {
        self.base
    }

    fn base(&self) -> (r: &BaseEvent) {
        &self.base
    }

    fn set_base(&mut self, base: BaseEvent)
        ensures
            *final(self) == (LinkClickedEvent { base, ..*old(self) }),
    {
        self.base = base;
    }
}

/// A dropdown opened or closed.
#[derive(Clone, Debug)]
pub struct DropdownToggledEvent {
    pub base: BaseEvent,
    pub is_open: bool,
}

impl DropdownToggledEvent {
    pub fn new(target: DynElement, is_open: bool) -> (r: DropdownToggledEvent)
        ensures
            r.base_view().fresh(target),
            r.is_open == is_open,
    {
        DropdownToggledEvent { base: BaseEvent::new(target), is_open }
    }
}

impl Event for DropdownToggledEvent {
    open spec fn base_view(&self) -> BaseEvent {
        self.base
    }

    fn base(&self) -> (r: &BaseEvent) {
        &self.base
    }

    fn set_base(&mut self, base: BaseEvent)
        ensures
            *final(self) == (DropdownToggledEvent { base, ..*old(self) }),
    {
        self.base = base;
    }
}

/// A dropdown item was chosen.
#[derive(Clone, Debug)]
pub struct DropdownItemSelectedEvent {
    pub base: BaseEvent,
    pub index: usize,
}

impl DropdownItemSelectedEvent {
    pub fn new(target: DynElement, index: usize) -> (r: DropdownItemSelectedEvent)
        ensures
            r.base_view().fresh(target),
            r.index == index,
    {
        DropdownItemSelectedEvent { base: BaseEvent::new(target), index }
    }
}

impl Event for DropdownItemSelectedEvent {
    open spec fn base_view(&self) -> BaseEvent {
        self.base
    }

    fn base(&self) -> (r: &BaseEvent) {
        &self.base
    }

    fn set_base(&mut self, base: BaseEvent)
        ensures
            *final(self) == (DropdownItemSelectedEvent { base, ..*old(self) }),
    {
        self.base = base;
    }
}

/// A switch was toggled.
#[derive(Clone, Debug)]
pub struct SwitchToggledEvent {
    pub base: BaseEvent,
    pub toggled: bool,
}

impl SwitchToggledEvent {
    pub fn new(target: DynElement, toggled: bool) -> (r: SwitchToggledEvent)
        ensures
            r.base_view().fresh(target),
            r.toggled == toggled,
    {
        SwitchToggledEvent { base: BaseEvent::new(target), toggled }
    }
}

impl Event for SwitchToggledEvent {
    open spec fn base_view(&self) -> BaseEvent {
        self.base
    }

    fn base(&self) -> (r: &BaseEvent) {
        &self.base
    }

    fn set_base(&mut self, base: BaseEvent)
        ensures
            *final(self) == (SwitchToggledEvent { base, ..*old(self) }),
    {
        self.base = base;
    }
}

/// A slider's value changed; the value is carried as the bits of an `f64`.
#[derive(Clone, Debug)]
pub struct SliderValueChangedEvent {
    pub base: BaseEvent,
    pub value_bits: u64,
}

impl SliderValueChangedEvent {
    pub fn new(target: DynElement, value_bits: u64) -> (r: SliderValueChangedEvent)
        ensures
            r.base_view().fresh(target),
            r.value_bits == value_bits,
    {
        SliderValueChangedEvent { base: BaseEvent::new(target), value_bits }
    }
}

impl Event for SliderValueChangedEvent {
    open spec fn base_view(&self) -> BaseEvent {
        self.base
    }

    fn base(&self) -> (r: &BaseEvent) {
        &self.base
    }

    fn set_base(&mut self, base: BaseEvent)
        ensures
            *final(self) == (SliderValueChangedEvent { base, ..*old(self) }),
    {
        self.base = base;
    }
}

/// The selected value of a radio group changed.
#[derive(Clone, Debug)]
pub struct RadioValueChangedEvent {
    pub base: BaseEvent,
    pub value: String,
}

impl RadioValueChangedEvent {
    pub fn new(target: DynElement, value: String) -> (r: RadioValueChangedEvent)
        ensures
            r.base_view().fresh(target),
            r.value == value,
    {
        RadioValueChangedEvent { base: BaseEvent::new(target), value }
    }
}

impl Event for RadioValueChangedEvent {
    open spec fn base_view(&self) -> BaseEvent {
        self.base
    }

    fn base(&self) -> (r: &BaseEvent) {
        &self.base
    }

    fn set_base(&mut self, base: BaseEvent)
        ensures
            *final(self) == (RadioValueChangedEvent { base, ..*old(self) }),
    {
        self.base = base;
    }
}

/// A checkbox was toggled.
#[derive(Clone, Debug)]
pub struct CheckboxToggledEvent {
    pub base: BaseEvent,
    pub label: String,
    pub status: bool,
}

impl CheckboxToggledEvent {
    pub fn new(target: DynElement, label: String, status: bool) -> (r: CheckboxToggledEvent)
        ensures
            r.base_view().fresh(target),
            r.status == status,
            r.label == label,
    {
        CheckboxToggledEvent { base: BaseEvent::new(target), label, status }
    }
}

impl Event for CheckboxToggledEvent {
    open spec fn base_view(&self) -> BaseEvent {
        self.base
    }

    fn base(&self) -> (r: &BaseEvent) {
        &self.base
    }

    fn set_base(&mut self, base: BaseEvent)
        ensures
            *final(self) == (CheckboxToggledEvent { base, ..*old(self) }),
    {
        self.base = base;
    }
}

/// The inline event representation used by the dispatcher and the event queue.
#[derive(Clone, Debug)]
pub enum EventKind {
    GotPointerCapture(PointerCaptureEvent),
    LostPointerCapture(PointerCaptureEvent),
    PointerEnter(PointerEnterEvent),
    PointerLeave(PointerLeaveEvent),
    PointerUp(PointerButtonEvent),
    PointerDown(PointerButtonEvent),
    Click(ClickEvent),
    Focus(FocusEvent),
    KeyDown(KeyboardEvent),
    KeyUp(KeyboardEvent),
    PointerMoved(PointerMovedEvent),
    PointerScroll(PointerScrollEvent),
    Scroll(ScrollEvent),
    Ime(ImeEvent),
    TextInputChanged(TextInputChangedEvent),
    LinkClicked(LinkClickedEvent),
    DropdownToggled(DropdownToggledEvent),
    DropdownItemSelected(DropdownItemSelectedEvent),
    SwitchToggled(SwitchToggledEvent),
    SliderValueChanged(SliderValueChangedEvent),
    RadioValueChanged(RadioValueChangedEvent),
    Unfocus(UnfocusEvent),
    CheckboxToggled(CheckboxToggledEvent),
}

impl EventKind {
    /// The same event with its shared state replaced.
    pub open spec fn with_base(self, base: BaseEvent) -> EventKind {
        match self {
            EventKind::GotPointerCapture(e) => EventKind::GotPointerCapture(PointerCaptureEvent { base, ..e }),
            EventKind::LostPointerCapture(e) => EventKind::LostPointerCapture(PointerCaptureEvent { base, ..e }),
            EventKind::PointerEnter(e) => EventKind::PointerEnter(PointerEnterEvent { base, ..e }),
            EventKind::PointerLeave(e) => EventKind::PointerLeave(PointerLeaveEvent { base, ..e }),
            EventKind::PointerUp(e) => EventKind::PointerUp(PointerButtonEvent { base, ..e }),
            EventKind::PointerDown(e) => EventKind::PointerDown(PointerButtonEvent { base, ..e }),
            EventKind::Click(e) => EventKind::Click(ClickEvent { base, ..e }),
            EventKind::Focus(e) => EventKind::Focus(FocusEvent { base, ..e }),
            EventKind::KeyDown(e) => EventKind::KeyDown(KeyboardEvent { base, ..e }),
            EventKind::KeyUp(e) => EventKind::KeyUp(KeyboardEvent { base, ..e }),
            EventKind::PointerMoved(e) => EventKind::PointerMoved(PointerMovedEvent { base, ..e }),
            EventKind::PointerScroll(e) => EventKind::PointerScroll(PointerScrollEvent { base, ..e }),
            EventKind::Scroll(e) => EventKind::Scroll(ScrollEvent { base, ..e }),
            EventKind::Ime(e) => EventKind::Ime(ImeEvent { base, ..e }),
            EventKind::TextInputChanged(e) => EventKind::TextInputChanged(TextInputChangedEvent { base, ..e }),
            EventKind::LinkClicked(e) => EventKind::LinkClicked(LinkClickedEvent { base, ..e }),
            EventKind::DropdownToggled(e) => EventKind::DropdownToggled(DropdownToggledEvent { base, ..e }),
            EventKind::DropdownItemSelected(e) => EventKind::DropdownItemSelected(DropdownItemSelectedEvent { base, ..e }),
            EventKind::SwitchToggled(e) => EventKind::SwitchToggled(SwitchToggledEvent { base, ..e }),
            EventKind::SliderValueChanged(e) => EventKind::SliderValueChanged(SliderValueChangedEvent { base, ..e }),
            EventKind::RadioValueChanged(e) => EventKind::RadioValueChanged(RadioValueChangedEvent { base, ..e }),
            EventKind::Unfocus(e) => EventKind::Unfocus(UnfocusEvent { base, ..e }),
            EventKind::CheckboxToggled(e) => EventKind::CheckboxToggled(CheckboxToggledEvent { base, ..e }),
        }
    }
}

impl Event for EventKind {
    open spec fn base_view(&self) -> BaseEvent {
        match self {
            EventKind::GotPointerCapture(e) => e.base_view(),
            EventKind::LostPointerCapture(e) => e.base_view(),
            EventKind::PointerEnter(e) => e.base_view(),
            EventKind::PointerLeave(e) => e.base_view(),
            EventKind::PointerUp(e) => e.base_view(),
            EventKind::PointerDown(e) => e.base_view(),
            EventKind::Click(e) => e.base_view(),
            EventKind::Focus(e) => e.base_view(),
            EventKind::KeyDown(e) => e.base_view(),
            EventKind::KeyUp(e) => e.base_view(),
            EventKind::PointerMoved(e) => e.base_view(),
            EventKind::PointerScroll(e) => e.base_view(),
            EventKind::Scroll(e) => e.base_view(),
            EventKind::Ime(e) => e.base_view(),
            EventKind::TextInputChanged(e) => e.base_view(),
            EventKind::LinkClicked(e) => e.base_view(),
            EventKind::DropdownToggled(e) => e.base_view(),
            EventKind::DropdownItemSelected(e) => e.base_view(),
            EventKind::SwitchToggled(e) => e.base_view(),
            EventKind::SliderValueChanged(e) => e.base_view(),
            EventKind::RadioValueChanged(e) => e.base_view(),
            EventKind::Unfocus(e) => e.base_view(),
            EventKind::CheckboxToggled(e) => e.base_view(),
        }
    }

    fn base(&self) -> (r: &BaseEvent) {
        match self {
            EventKind::GotPointerCapture(e) => e.base(),
            EventKind::LostPointerCapture(e) => e.base(),
            EventKind::PointerEnter(e) => e.base(),
            EventKind::PointerLeave(e) => e.base(),
            EventKind::PointerUp(e) => e.base(),
            EventKind::PointerDown(e) => e.base(),
            EventKind::Click(e) => e.base(),
            EventKind::Focus(e) => e.base(),
            EventKind::KeyDown(e) => e.base(),
            EventKind::KeyUp(e) => e.base(),
            EventKind::PointerMoved(e) => e.base(),
            EventKind::PointerScroll(e) => e.base(),
            EventKind::Scroll(e) => e.base(),
            EventKind::Ime(e) => e.base(),
            EventKind::TextInputChanged(e) => e.base(),
            EventKind::LinkClicked(e) => e.base(),
            EventKind::DropdownToggled(e) => e.base(),
            EventKind::DropdownItemSelected(e) => e.base(),
            EventKind::SwitchToggled(e) => e.base(),
            EventKind::SliderValueChanged(e) => e.base(),
            EventKind::RadioValueChanged(e) => e.base(),
            EventKind::Unfocus(e) => e.base(),
            EventKind::CheckboxToggled(e) => e.base(),
        }
    }

    fn set_base(&mut self, base: BaseEvent)
        ensures
            *final(self) == old(self).with_base(base),
    {
        match self {
            EventKind::GotPointerCapture(e) => e.set_base(base),
            EventKind::LostPointerCapture(e) => e.set_base(base),
            EventKind::PointerEnter(e) => e.set_base(base),
            EventKind::PointerLeave(e) => e.set_base(base),
            EventKind::PointerUp(e) => e.set_base(base),
            EventKind::PointerDown(e) => e.set_base(base),
            EventKind::Click(e) => e.set_base(base),
            EventKind::Focus(e) => e.set_base(base),
            EventKind::KeyDown(e) => e.set_base(base),
            EventKind::KeyUp(e) => e.set_base(base),
            EventKind::PointerMoved(e) => e.set_base(base),
            EventKind::PointerScroll(e) => e.set_base(base),
            EventKind::Scroll(e) => e.set_base(base),
            EventKind::Ime(e) => e.set_base(base),
            EventKind::TextInputChanged(e) => e.set_base(base),
            EventKind::LinkClicked(e) => e.set_base(base),
            EventKind::DropdownToggled(e) => e.set_base(base),
            EventKind::DropdownItemSelected(e) => e.set_base(base),
            EventKind::SwitchToggled(e) => e.set_base(base),
            EventKind::SliderValueChanged(e) => e.set_base(base),
            EventKind::RadioValueChanged(e) => e.set_base(base),
            EventKind::Unfocus(e) => e.set_base(base),
            EventKind::CheckboxToggled(e) => e.set_base(base),
        }
    }

    fn stop_propagation(&mut self)
        ensures
            *final(self) == old(self).with_base(old(self).base_view().with_stopped()),
    {
        let mut base = *self.base();
        base.stop();
        self.set_base(base);
    }

    fn prevent_default(&mut self)
        ensures
            *final(self) == old(self).with_base(old(self).base_view().with_prevented()),
    {
        let mut base = *self.base();
        base.prevent();
        self.set_base(base);
    }
}

impl EventKind {
    /// Whether the event comes from a pointer device directly.
    pub open spec fn spec_is_system_pointer_event(&self) -> bool {
        ||| self is PointerMoved
        ||| self is PointerUp
        ||| self is PointerDown
        ||| self is PointerScroll
    }

    /// The pointer the event concerns, if any.
    pub open spec fn spec_pointer_id(&self) -> Option<PointerId> {
        match self {
            EventKind::GotPointerCapture(e) => Some(e.pointer_id),
            EventKind::LostPointerCapture(e) => Some(e.pointer_id),
            EventKind::PointerUp(e) => e.pointer.id_of(),
            EventKind::PointerDown(e) => e.pointer.id_of(),
            EventKind::PointerMoved(e) => e.pointer.id_of(),
            EventKind::PointerScroll(e) => e.pointer.id_of(),
            _ => None,
        }
    }

    /// Whether the event comes from the keyboard or an input method.
    pub open spec fn spec_is_keyboard_event(&self) -> bool {
        ||| self is KeyDown
        ||| self is KeyUp
        ||| self is Ime
    }

    pub fn is_system_pointer_event(&self) -> (r: bool)
        ensures
            r == self.spec_is_system_pointer_event(),
    {
        match self {
            EventKind::PointerMoved(_) | EventKind::PointerUp(_) | EventKind::PointerDown(_)
            | EventKind::PointerScroll(_) => true,
            _ => false,
        }
    }

    pub fn pointer_id(&self) -> (r: Option<PointerId>)
        ensures
            r == self.spec_pointer_id(),
    {
        match self {
            EventKind::GotPointerCapture(e) => Some(e.pointer_id),
            EventKind::LostPointerCapture(e) => Some(e.pointer_id),
            EventKind::PointerUp(e) => e.pointer.id(),
            EventKind::PointerDown(e) => e.pointer.id(),
            EventKind::PointerMoved(e) => e.pointer.id(),
            EventKind::PointerScroll(e) => e.pointer.id(),
            _ => None,
        }
    }

    pub fn is_keyboard_event(&self) -> (r: bool)
        ensures
            r == self.spec_is_keyboard_event(),
    {
        match self {
            EventKind::KeyDown(_) | EventKind::KeyUp(_) | EventKind::Ime(_) => true,
            _ => false,
        }
    }

    /// Points both the target and the current target at `target`, keeping
    /// the dispatch flags and the payload.
    pub fn retarget(&mut self, target: DynElement)
        ensures
            *final(self) == old(self).with_base(old(self).base_view().retargeted(target)),
            final(self).base_view().target_of() == target,
            final(self).base_view().current_target_of() == target,
            final(self).base_view().stopped() == old(self).base_view().stopped(),
            final(self).base_view().prevented() == old(self).base_view().prevented(),
    {
        let mut base = *self.base();
        base.retarget(target);
        self.set_base(base);
    }
}

/// Options for an event listener.
#[derive(Clone, Copy, Debug, Default, PartialEq, Eq, Structural)]
pub struct EventListenerOptions {
    /// Run the listener in the capture phase, on the way down to the target.
    pub capturing: bool,
}

} // verus!
