//! Wheel adjustments of the drawing properties, and how long the note that
//! shows the new value stays on screen. The values themselves are the
//! caller's; times are milliseconds on the caller's clock.

use vstd::prelude::*;
use crate::keys::Modifiers;

verus! {

/// The property a wheel step adjusts.
#[derive(Debug, Clone, Copy, PartialEq, Eq, Structural)]
pub enum Property {
    /// How round corners and line ends are.
    Roundness,
    /// How opaque the stroke is.
    Opacity,
    /// The stroke width, or the font size of text.
    Size,
}

/// The property a wheel step adjusts: roundness with Shift (not while
/// typing), else opacity with Ctrl, else the size.
pub open spec fn property_for(modifiers: Modifiers, editing_text: bool) -> Property {
    if modifiers.shift && !editing_text {
        Property::Roundness
    } else if modifiers.ctrl {
        Property::Opacity
    } else {
        Property::Size
    }
}

/// The property a wheel step adjusts.
pub fn adjusted_property(modifiers: Modifiers, editing_text: bool) -> (property: Property)
    ensures
        property == property_for(modifiers, editing_text),
{
    if modifiers.shift && !editing_text {
        Property::Roundness
    } else if modifiers.ctrl {
        Property::Opacity
    } else {
        Property::Size
    }
}

/// The note showing a property's new value: its text, where it stands (the
/// place of the first adjustment in a row), and until when it is shown.
pub struct PropertyFeedback<P> {
    pub message: Option<String>,
    pub anchor: Option<P>,
    pub until_ms: Option<u64>,
}

impl<P> PropertyFeedback<P> {
    /// No note.
    pub fn new() -> (feedback: Self)
        ensures
            feedback.message is None,
            feedback.anchor is None,
            feedback.until_ms is None,
    {
        PropertyFeedback { message: None, anchor: None, until_ms: None }
    }

    /// An adjustment changed a property at `at`, at time `now_ms`: the note
    /// shows `message`, stays where a note already stands (else goes to
    /// `at`), and is shown for `duration_ms` from now.
    pub fn show(&mut self, message: String, at: P, now_ms: u64, duration_ms: u64)
        requires
            now_ms + duration_ms <= u64::MAX,
        ensures
            final(self).message == Some(message),
            final(self).anchor == match old(self).anchor {
                Some(a) => Some(a),
                None => Some(at),
            },
            final(self).until_ms == Some((now_ms + duration_ms) as u64),
    {
        if self.anchor.is_none() {
            self.anchor = Some(at);
        }
        self.message = Some(message);
        self.until_ms = Some(now_ms + duration_ms);
    }

    /// When the note has to be taken down, if one is shown.
    pub fn next_wakeup(&self) -> (until: Option<u64>)
        ensures
            until == self.until_ms,
    {
        self.until_ms
    }

    /// The time is `now_ms`: a note whose time is up is taken down. Returns
    /// whether it was, which repaints the previews.
    pub fn expire(&mut self, now_ms: u64) -> (expired: bool)
        ensures
            expired == (old(self).until_ms matches Some(u) && now_ms >= u),
            expired ==> final(self).message is None && final(self).anchor is None
                && final(self).until_ms is None,
            !expired ==> *final(self) == *old(self),
    {
        let due = match self.until_ms {
            Some(until) => now_ms >= until,
            None => false,
        };
        if due {
            self.clear();
        }
        due
    }

    /// Takes the note down, as leaving drawing mode does. Returns whether
    /// anything was shown or pending.
    pub fn clear(&mut self) -> (cleared: bool)
        ensures
            cleared == (old(self).message is Some || old(self).anchor is Some || old(
                self,
            ).until_ms is Some),
            final(self).message is None,
            final(self).anchor is None,
            final(self).until_ms is None,
    {
        let cleared = self.message.is_some() || self.anchor.is_some() || self.until_ms.is_some();
        self.message = None;
        self.anchor = None;
        self.until_ms = None;
        cleared
    }
}

} // verus!
