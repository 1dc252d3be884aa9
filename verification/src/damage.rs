//! What an input event did to the picture, so that only what changed is redrawn.

use vstd::prelude::*;

verus! {

/// How much of the picture must be redrawn, from nothing to everything.
#[derive(Debug, Clone, Copy, PartialEq, Eq, Structural)]
pub enum Damage {
    /// Nothing changed.
    Unchanged,
    /// Only the previews and overlays changed.
    Preview,
    /// The committed annotations changed.
    Scene,
}

/// The rank of a damage: none below preview below scene.
pub open spec fn rank(damage: Damage) -> nat {
    match damage {
        Damage::Unchanged => 0,
        Damage::Preview => 1,
        Damage::Scene => 2,
    }
}

/// The larger of two damages.
pub open spec fn larger(a: Damage, b: Damage) -> Damage {
    if rank(a) >= rank(b) {
        a
    } else {
        b
    }
}

impl Default for Damage {
    fn default() -> (damage: Self)
        ensures
            damage == Damage::Unchanged,
    {
        Damage::Unchanged
    }
}

impl Damage {
    /// Raises this damage to `other` when `other` is larger.
    pub fn merge(&mut self, other: Self)
        ensures
            *final(self) == larger(*old(self), other),
    {
        *self = self.max(other);
    }

    /// The larger of the two damages.
    pub fn max(self, other: Self) -> (damage: Self)
        ensures
            damage == larger(self, other),
    {
        let a: u8 = match self {
            Damage::Unchanged => 0,
            Damage::Preview => 1,
            Damage::Scene => 2,
        };
        let b: u8 = match other {
            Damage::Unchanged => 0,
            Damage::Preview => 1,
            Damage::Scene => 2,
        };
        if a >= b {
            self
        } else {
            other
        }
    }

    /// Whether anything must be redrawn.
    pub fn changed(self) -> (changed: bool)
        ensures
            changed == (self != Damage::Unchanged),
    {
        !matches!(self, Damage::Unchanged)
    }

    /// Preview damage when something changed, none otherwise.
    pub fn from_preview(changed: bool) -> (damage: Self)
        ensures
            damage == (if changed {
                Damage::Preview
            } else {
                Damage::Unchanged
            }),
    {
        if changed {
            Damage::Preview
        } else {
            Damage::Unchanged
        }
    }

    /// Scene damage when something changed, none otherwise.
    pub fn from_scene(changed: bool) -> (damage: Self)
        ensures
            damage == (if changed {
                Damage::Scene
            } else {
                Damage::Unchanged
            }),
    {
        if changed {
            Damage::Scene
        } else {
            Damage::Unchanged
        }
    }
}

/// Merging damages is commutative, associative and idempotent, `Unchanged` changes
/// nothing and `Scene` absorbs everything: the order in which events report
/// damage does not matter.
pub proof fn lemma_merge_laws(a: Damage, b: Damage, c: Damage)
    ensures
        larger(a, b) == larger(b, a),
        larger(larger(a, b), c) == larger(a, larger(b, c)),
        larger(a, a) == a,
        larger(a, Damage::Unchanged) == a,
        larger(a, Damage::Scene) == Damage::Scene,
        rank(larger(a, b)) >= rank(a) && rank(larger(a, b)) >= rank(b),
{
}

/// After merging, something must be redrawn exactly when either side asked for it.
pub proof fn lemma_merge_changed(a: Damage, b: Damage)
    ensures
        (larger(a, b) != Damage::Unchanged) == (a != Damage::Unchanged || b != Damage::Unchanged),
{
}

/// What the editor reports after handling an action.
pub struct EditorEffect {
    pub damage: Damage,
    pub deactivate: bool,
    pub feedback: Option<String>,
}

impl Default for EditorEffect {
    fn default() -> (effect: Self)
        ensures
            effect.damage == Damage::Unchanged,
            !effect.deactivate,
            effect.feedback is None,
    {
        EditorEffect { damage: Damage::Unchanged, deactivate: false, feedback: None }
    }
}

} // verus!
