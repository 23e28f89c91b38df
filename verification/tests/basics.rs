use citrus_field::assets::{panel_source, PanelMap};
use citrus_field::color::Color;
use citrus_field::enum_map::{EnumKey, EnumMap};
use citrus_field::input::{boolean, MouseButtons, MouseModifiers};
use citrus_field::panel::{Panel, PanelKind, KIND_COUNT};

#[test]
pub fn test_enum_map() {
    // test allocation
    let mut panel_map = EnumMap::<PanelKind, String>::new(|kind| match kind {
        PanelKind::Bonus => String::from("awesome"),
        _ => String::new(),
    });

    assert_eq!(*panel_map.get(PanelKind::Bonus), "awesome");
    assert_ne!(*panel_map.get(PanelKind::Drop), "awesome");

    // test saving to field
    panel_map.set(PanelKind::Draw, String::from("pretty awesome"));

    assert_eq!(*panel_map.get(PanelKind::Bonus), "awesome");
    assert_ne!(*panel_map.get(PanelKind::Drop), "awesome");
    assert_eq!(*panel_map.get(PanelKind::Draw), "pretty awesome");
}

#[test]
fn enum_map_iter_walks_all_kinds_in_order() {
    let map = EnumMap::<PanelKind, usize>::new(|kind| PanelKind::into_usize(kind) * 10);
    let mut iter = map.iter();
    let mut seen = 0usize;
    while let Some((kind, value)) = iter.next() {
        assert_eq!(PanelKind::into_usize(kind), seen);
        assert_eq!(*value, seen * 10);
        seen += 1;
    }
    assert_eq!(seen, KIND_COUNT as usize);
}

#[test]
fn enum_map_new_empty_holds_none() {
    let map = EnumMap::<PanelKind, Option<u32>>::new_empty();
    assert!(map.get(PanelKind::Home).is_none());
    assert!(map.get(PanelKind::Damage2x).is_none());
}

#[test]
fn panel_kind_byte_round_trip() {
    for b in 0..KIND_COUNT {
        let kind = PanelKind::try_from_byte(b).unwrap();
        assert_eq!(kind.to_byte(), b);
    }
    assert!(PanelKind::try_from_byte(KIND_COUNT).is_none());
    assert!(PanelKind::try_from_byte(255).is_none());
}

#[test]
fn panel_empty_marker() {
    assert!(Panel::empty().is_empty());
    assert_eq!(Panel::empty().kind, PanelKind::Empty);
    assert!(!Panel::new(PanelKind::Home).is_empty());
}

#[test]
fn color_components() {
    let c = Color::rgba(1, 2, 3, 4);
    assert_eq!(c.red(), 1);
    assert_eq!(c.green(), 2);
    assert_eq!(c.blue(), 3);
    assert_eq!(c.alpha(), 4);

    let c = Color::rgb(250, 128, 7);
    assert_eq!(c.red(), 250);
    assert_eq!(c.green(), 128);
    assert_eq!(c.blue(), 7);
    assert_eq!(c.alpha(), 255);
}

#[test]
fn mouse_buttons_and_modifiers() {
    assert!(MouseButtons(1).left());
    assert!(!MouseButtons(1).right());
    assert!(MouseButtons(2).right());
    assert!(MouseButtons(3).left() && MouseButtons(3).right());
    assert!(!MouseButtons(0).left() && !MouseButtons(0).right());

    assert!(MouseModifiers::from_shift(true).shift());
    assert!(!MouseModifiers::from_shift(false).shift());
    assert_eq!(boolean(true), u8::MAX);
    assert_eq!(boolean(false), u8::MIN);
}

#[test]
fn panel_sources() {
    assert_eq!(panel_source(PanelKind::Neutral), Some("./img/neutral.png"));
    assert_eq!(panel_source(PanelKind::Home), Some("./img/home.png"));
    assert_eq!(panel_source(PanelKind::Drop2x), Some("./img/drop2x.png"));
    assert_eq!(panel_source(PanelKind::WarpMove2x), Some("./img/warpmove2x.png"));
    assert_eq!(panel_source(PanelKind::Empty), None);
    assert_eq!(panel_source(PanelKind::Deck), None);
}

#[test]
fn panel_map_caches_per_kind() {
    let mut textures: PanelMap<Option<&'static str>> = PanelMap::new_empty();
    textures.set(PanelKind::Home, panel_source(PanelKind::Home));
    assert_eq!(*textures.get(PanelKind::Home), Some("./img/home.png"));
    assert_eq!(*textures.get(PanelKind::Draw), None);
}
