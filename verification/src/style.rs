//! Style values shared by every element, and dirty tracking for them.

use vstd::prelude::*;
use vstd::utf8::{encode_utf8, encode_scalar, valid_utf8};
use vstd::string::{StrSliceExecFns, StringSliceAdditionalSpecFns};

verus! {

/// The layout algorithm used for an element's children.
#[derive(Clone, Copy, Debug, PartialEq, Eq, Structural)]
pub enum Display {
    Flex,
    Block,
    /// The element and its subtree are not shown and take no space.
    Hidden,
}

/// Controls how child nodes are aligned in the cross/block axis.
#[derive(Clone, Copy, Debug, PartialEq, Eq, Structural)]
pub enum AlignItems {
    Normal,
    Start,
    End,
    FlexStart,
    FlexEnd,
    SelfStart,
    SelfEnd,
    Center,
    Baseline,
    Stretch,
    SafeStart,
    SafeEnd,
    SafeFlexStart,
    SafeFlexEnd,
    SafeSelfStart,
    SafeSelfEnd,
    SafeCenter,
}

impl Default for AlignItems {
    fn default() -> (r: AlignItems)
        ensures
            r == AlignItems::Normal,
    {
        AlignItems::Normal
    }
}

/// Controls how an individual node is aligned in the cross/block axis.
#[derive(Clone, Copy, Debug, PartialEq, Eq, Structural)]
pub enum AlignSelf {
    Auto,
    Normal,
    Start,
    End,
    FlexStart,
    FlexEnd,
    SelfStart,
    SelfEnd,
    Center,
    Baseline,
    Stretch,
    SafeStart,
    SafeEnd,
    SafeFlexStart,
    SafeFlexEnd,
    SafeSelfStart,
    SafeSelfEnd,
    SafeCenter,
}

impl Default for AlignSelf {
    fn default() -> (r: AlignSelf)
        ensures
            r == AlignSelf::Auto,
    {
        AlignSelf::Auto
    }
}

/// Controls how content is distributed in the cross/block axis.
#[derive(Clone, Copy, Debug, PartialEq, Eq, Structural)]
pub enum AlignContent {
    Normal,
    Start,
    End,
    FlexStart,
    FlexEnd,
    Center,
    Stretch,
    SpaceBetween,
    SpaceEvenly,
    SpaceAround,
    SafeStart,
    SafeEnd,
    SafeFlexStart,
    SafeFlexEnd,
    SafeCenter,
}

impl Default for AlignContent {
    fn default() -> (r: AlignContent)
        ensures
            r == AlignContent::Normal,
    {
        AlignContent::Normal
    }
}

/// Controls how content is distributed in the main/inline axis.
#[derive(Clone, Copy, Debug, PartialEq, Eq, Structural)]
pub enum JustifyContent {
    Normal,
    Start,
    End,
    FlexStart,
    FlexEnd,
    Center,
    Stretch,
    SpaceBetween,
    SpaceEvenly,
    SpaceAround,
    SafeStart,
    SafeEnd,
    SafeFlexStart,
    SafeFlexEnd,
    SafeCenter,
}

impl Default for JustifyContent {
    fn default() -> (r: JustifyContent)
        ensures
            r == JustifyContent::Normal,
    {
        JustifyContent::Normal
    }
}

/// The main axis of a flex container.
#[derive(Clone, Copy, Debug)]
pub enum FlexDirection {
    Row,
    Column,
    RowReverse,
    ColumnReverse,
}

/// The weight of a font, from 1 to 1000.
#[derive(Clone, Copy, PartialOrd, Ord, PartialEq, Eq, Debug, Hash, Structural)]
pub struct FontWeight(pub u16);

impl FontWeight {
    /// Black weight (900), the thickest value.
    pub fn black() -> (r: FontWeight)
        ensures
            r.0 == 900,
    {
        FontWeight(900)
    }

    /// Bold weight (700).
    pub fn bold() -> (r: FontWeight)
        ensures
            r.0 == 700,
    {
        FontWeight(700)
    }

    /// Extra-bold weight (800).
    pub fn extra_bold() -> (r: FontWeight)
        ensures
            r.0 == 800,
    {
        FontWeight(800)
    }

    /// Extra light weight (200).
    pub fn extra_light() -> (r: FontWeight)
        ensures
            r.0 == 200,
    {
        FontWeight(200)
    }

    /// Light weight (300).
    pub fn light() -> (r: FontWeight)
        ensures
            r.0 == 300,
    {
        FontWeight(300)
    }

    /// Medium weight (500, higher than normal).
    pub fn medium() -> (r: FontWeight)
        ensures
            r.0 == 500,
    {
        FontWeight(500)
    }

    /// Normal (400).
    pub fn normal() -> (r: FontWeight)
        ensures
            r.0 == 400,
    {
        FontWeight(400)
    }

    /// Semibold weight (600).
    pub fn semibold() -> (r: FontWeight)
        ensures
            r.0 == 600,
    {
        FontWeight(600)
    }

    /// Thin weight (100), the thinnest value.
    pub fn thin() -> (r: FontWeight)
        ensures
            r.0 == 100,
    {
        FontWeight(100)
    }
}

impl Default for FontWeight {
    fn default() -> (r: FontWeight)
        ensures
            r == FontWeight(400),
    {
        FontWeight(400)
    }
}

/// How flex items wrap onto several lines.
#[derive(Copy, Clone, PartialEq, Eq, Debug, Structural)]
pub enum FlexWrap {
    NoWrap,
    Wrap,
    WrapReverse,
}

impl Default for FlexWrap {
    fn default() -> (r: FlexWrap)
        ensures
            r == FlexWrap::NoWrap,
    {
        FlexWrap::NoWrap
    }
}

/// What happens to content that does not fit its element.
#[derive(Copy, Clone, PartialEq, Eq, Debug, Structural)]
pub enum Overflow {
    Visible,
    Clip,
    Hidden,
    Scroll,
}

impl Default for Overflow {
    fn default() -> (r: Overflow)
        ensures
            r == Overflow::Visible,
    {
        Overflow::Visible
    }
}

/// Horizontal alignment of text within its box.
#[derive(Copy, Clone, PartialEq, Eq, Debug, Hash, Structural)]
pub enum TextAlign {
    Start,
    End,
    Left,
    Center,
    Right,
    Justify,
}

impl Default for TextAlign {
    fn default() -> (r: TextAlign)
        ensures
            r == TextAlign::Start,
    {
        TextAlign::Start
    }
}

/// The slant of a font.
#[derive(Copy, Clone, PartialEq, Eq, Debug, Hash, Structural)]
pub enum FontStyle {
    Normal,
    Italic,
    Oblique,
}

impl Default for FontStyle {
    fn default() -> (r: FontStyle)
        ensures
            r == FontStyle::Normal,
    {
        FontStyle::Normal
    }
}

/// Whether width and height include the border and padding.
#[derive(Copy, Clone, PartialEq, Eq, Debug, Structural)]
pub enum BoxSizing {
    BorderBox,
    ContentBox,
}

impl Default for BoxSizing {
    fn default() -> (r: BoxSizing)
        ensures
            r == BoxSizing::BorderBox,
    {
        BoxSizing::BorderBox
    }
}

/// How an element is positioned relative to its parent.
#[derive(Copy, Clone, PartialEq, Eq, Debug, Structural)]
pub enum Position {
    Relative,
    Absolute,
}

impl Default for Position {
    fn default() -> (r: Position)
        ensures
            r == Position::Relative,
    {
        Position::Relative
    }
}

/// A style value together with a flag recording whether it was set since
/// creation.
#[derive(Clone, Debug)]
pub struct StyleProperty<T> {
    property: T,
    is_dirty: bool,
}

impl<T> StyleProperty<T> {
    /// The value held.
    pub closed spec fn value(&self) -> T {
        self.property
    }

    /// Whether the value was set since the property was created.
    pub closed spec fn dirty(&self) -> bool {
        self.is_dirty
    }

    /// A property holding `property`, not yet dirty.
    pub fn new(property: T) -> (r: StyleProperty<T>)
        ensures
            r.value() == property,
            !r.dirty(),
    {
        StyleProperty { property, is_dirty: false }
    }

    /// Replaces the value and marks the property dirty.
    pub fn set(&mut self, property: T)
        ensures
            final(self).value() == property,
            final(self).dirty(),
    {
        self.property = property;
        self.is_dirty = true;
    }

    /// The value held.
    pub fn get(&self) -> (r: &T)
        ensures
            *r == self.value(),
    {
        &self.property
    }

    /// Whether the value was set since the property was created.
    pub fn is_dirty(&self) -> (r: bool)
        ensures
            r == self.dirty(),
    {
        self.is_dirty
    }
}

/// `std::str::from_utf8`, with the error dropped. Its documentation says that
/// it succeeds exactly when the bytes are valid UTF-8, and that the string it
/// returns then holds those very bytes.
#[verifier::external_body]
fn str_from_utf8(bytes: &[u8]) -> (r: Option<&str>)
    ensures
        r is Some <==> valid_utf8(bytes@),
        r matches Some(s) ==> s.spec_bytes() == bytes@,
{
    std::str::from_utf8(bytes).ok()
}

/// A UTF-8 encoding holds at least one byte per character.
pub proof fn lemma_encode_utf8_len(chars: Seq<char>)
    ensures
        encode_utf8(chars).len() >= chars.len(),
    decreases chars.len(),
{
    if chars.len() > 0 {
        lemma_encode_utf8_len(chars.drop_first());
        assert(encode_scalar(chars[0] as u32).len() >= 1);
    }
}

/// A font family name of at most 64 bytes, stored inline.
///
/// The stored length counts characters while the buffer holds bytes, so for a
/// name that is not ASCII only a prefix of its bytes is given back by
/// [`FontFamily::name`].
#[derive(Clone, Debug, Copy, PartialEq)]
pub struct FontFamily {
    font_family_length: u8,
    font_family_name: [u8; 64],
}

impl FontFamily {
    /// The recorded length of the name.
    pub closed spec fn length(&self) -> nat {
        self.font_family_length as nat
    }

    /// The 64 bytes of the buffer.
    pub closed spec fn buffer(&self) -> Seq<u8> {
        self.font_family_name@
    }

    /// The bytes that [`FontFamily::name`] decodes.
    pub open spec fn name_bytes(&self) -> Seq<u8> {
        self.buffer().subrange(0, self.length() as int)
    }

    /// Whether [`FontFamily::name`] can decode the name.
    pub open spec fn has_valid_name(&self) -> bool {
        self.length() == 0 || valid_utf8(self.name_bytes())
    }

    #[verifier::type_invariant]
    spec fn length_fits(&self) -> bool {
        self.font_family_length <= 64
    }

    proof fn lemma_buffer_len(&self)
        ensures
            self.buffer().len() == 64,
    {
    }

    /// Stores `font_family`, recording its number of characters as the length.
    pub fn new(font_family: &str) -> (r: FontFamily)
        requires
            font_family.spec_bytes().len() <= 64,
        ensures
            r.length() == font_family@.len(),
            r.buffer().len() == 64,
            r.buffer().subrange(0, font_family.spec_bytes().len() as int) == font_family.spec_bytes(),
            forall|i: int| font_family.spec_bytes().len() <= i < 64 ==> r.buffer()[i] == 0,
    {
        proof {
            lemma_encode_utf8_len(font_family@);
        }
        let count = font_family.unicode_len();
        let bytes = font_family.as_bytes();
        let mut name: [u8; 64] = [0u8; 64];
        let n = bytes.len();
        let mut i: usize = 0;
        while i < n
            invariant
                n == bytes@.len(),
                n <= 64,
                i <= n,
                name@.len() == 64,
                forall|j: int| 0 <= j < i ==> name@[j] == bytes@[j],
                forall|j: int| n <= j < 64 ==> name@[j] == 0,
            decreases n - i,
        {
            name[i] = bytes[i];
            i = i + 1;
        }
        let r = FontFamily { font_family_length: count as u8, font_family_name: name };
        assert(r.buffer().subrange(0, n as int) =~= font_family.spec_bytes());
        r
    }

    /// Whether no name is recorded.
    pub fn is_empty(&self) -> (r: bool)
        ensures
            r == (self.length() == 0),
    {
        self.font_family_length == 0
    }

    /// The name, or `None` when none is recorded.
    pub fn name(&self) -> (r: Option<&str>)
        requires
            self.has_valid_name(),
        ensures
            r is None <==> self.length() == 0,
            r matches Some(s) ==> s.spec_bytes() == self.name_bytes(),
    {
        if self.is_empty() {
            None
        } else {
            let len = self.font_family_length as usize;
            proof {
                self.lemma_buffer_len();
                use_type_invariant(self);
            }
            let slice = vstd::slice::slice_subrange(self.font_family_name.as_slice(), 0, len);
            str_from_utf8(slice)
        }
    }
}

impl Default for FontFamily {
    fn default() -> (r: FontFamily)
        ensures
            r.length() == 0,
            r.buffer() == Seq::new(64, |i: int| 0u8),
    {
        let r = FontFamily { font_family_length: 0, font_family_name: [0u8; 64] };
        assert(r.buffer() =~= Seq::new(64, |i: int| 0u8));
        r
    }
}

} // verus!
