use vellum::adjust::{adjusted_property, Property, PropertyFeedback};
use vellum::keys::Modifiers;

fn mods(shift: bool, ctrl: bool) -> Modifiers {
    Modifiers { shift, ctrl, alt: false }
}

#[test]
fn modifiers_pick_the_adjusted_property() {
    assert_eq!(adjusted_property(mods(true, false), false), Property::Roundness);
    assert_eq!(adjusted_property(mods(true, true), false), Property::Roundness);
    assert_eq!(adjusted_property(mods(true, false), true), Property::Size);
    assert_eq!(adjusted_property(mods(true, true), true), Property::Opacity);
    assert_eq!(adjusted_property(mods(false, true), false), Property::Opacity);
    assert_eq!(adjusted_property(mods(false, false), false), Property::Size);
}

#[test]
fn the_note_stays_put_and_expires_after_its_duration() {
    let mut note: PropertyFeedback<(i32, i32)> = PropertyFeedback::new();
    assert_eq!(note.next_wakeup(), None);
    assert!(!note.expire(1_000));
    note.show("Size 6".to_string(), (10, 10), 1_000, 500);
    note.show("Size 7".to_string(), (30, 30), 1_200, 500);
    assert_eq!(note.anchor, Some((10, 10)));
    assert_eq!(note.message.as_deref(), Some("Size 7"));
    assert_eq!(note.next_wakeup(), Some(1_700));
    assert!(!note.expire(1_699));
    assert!(note.expire(1_700));
    assert_eq!(note.anchor, None);
    assert_eq!(note.message, None);
    assert!(!note.clear());
}
