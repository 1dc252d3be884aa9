use vellum::damage::{Damage, EditorEffect};

#[test]
fn merge_keeps_the_larger_damage() {
    let all = [Damage::Unchanged, Damage::Preview, Damage::Scene];
    for a in all {
        for b in all {
            let mut merged = a;
            merged.merge(b);
            let mut other = b;
            other.merge(a);
            assert_eq!(merged, other);
            assert_eq!(merged.changed(), a.changed() || b.changed());
        }
    }
    let mut damage = Damage::Preview;
    damage.merge(Damage::Unchanged);
    assert_eq!(damage, Damage::Preview);
    damage.merge(Damage::Scene);
    assert_eq!(damage, Damage::Scene);
    damage.merge(Damage::Preview);
    assert_eq!(damage, Damage::Scene);
}

#[test]
fn damage_from_changes() {
    assert_eq!(Damage::from_preview(true), Damage::Preview);
    assert_eq!(Damage::from_preview(false), Damage::Unchanged);
    assert_eq!(Damage::from_scene(true), Damage::Scene);
    assert_eq!(Damage::from_scene(false), Damage::Unchanged);
    assert!(!Damage::Unchanged.changed());
    assert!(Damage::Preview.changed());
    assert_eq!(Damage::default(), Damage::Unchanged);
    let effect = EditorEffect::default();
    assert_eq!(effect.damage, Damage::Unchanged);
    assert!(!effect.deactivate);
    assert!(effect.feedback.is_none());
}
