use retgui::style::{
    AlignContent, AlignItems, AlignSelf, BoxSizing, Display, FlexDirection, FlexWrap, FontFamily, FontStyle, FontWeight,
    JustifyContent, Overflow, Position, StyleProperty, TextAlign,
};

#[test]
fn font_family_keeps_its_name() {
    let f = FontFamily::new("monospace");
    assert!(!f.is_empty());
    assert_eq!(f.name(), Some("monospace"));
    let empty = FontFamily::default();
    assert!(empty.is_empty());
    assert_eq!(empty.name(), None);
    assert!(FontFamily::new("").is_empty());
}

#[test]
fn style_property_tracks_writes() {
    let mut p = StyleProperty::new(3u32);
    assert!(!p.is_dirty());
    assert_eq!(*p.get(), 3);
    p.set(5);
    assert!(p.is_dirty());
    assert_eq!(*p.get(), 5);
}

#[test]
fn style_defaults() {
    assert_eq!(FontWeight::default(), FontWeight::normal());
    assert_eq!(FontWeight::normal().0, 400);
    assert_eq!(FontWeight::bold().0, 700);
    assert_ne!(Display::Flex, Display::Hidden);
    assert!(matches!(FlexDirection::Column, FlexDirection::Column));
    assert!(matches!(FlexWrap::default(), FlexWrap::NoWrap));
    assert!(matches!(Position::default(), Position::Relative));
    assert!(matches!(Overflow::default(), Overflow::Visible));
    assert!(matches!(BoxSizing::default(), BoxSizing::BorderBox));
    assert!(matches!(FontStyle::default(), FontStyle::Normal));
    let _ = (
        AlignItems::default(),
        AlignSelf::default(),
        AlignContent::default(),
        JustifyContent::default(),
        TextAlign::default(),
    );
}
