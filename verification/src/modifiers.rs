//! The live state of the four modifier keys.

use crate::event::KeyPressState;
use crate::layout::{KeyPress, KeyPressView};
use vstd::prelude::*;

verus! {

/// Which of the modifier keys are held.
#[derive(Clone, Copy, Debug, PartialEq, Eq, Structural)]
pub struct Modifiers {
    pub ctrl: bool,
    pub shift: bool,
    pub alt: bool,
    pub sup: bool,
}

/// One resolved key transition: what the key is and which way it went.
pub type Transition = (KeyPressView, KeyPressState);

/// The transitions of `events` that belong to a modifier key, in their order.
pub open spec fn modifier_transitions(events: Seq<Transition>) -> Seq<Transition>
    decreases events.len(),
{
    if events.len() == 0 {
        events
    } else if events.last().0 is Other {
        modifier_transitions(events.drop_last())
    } else {
        modifier_transitions(events.drop_last()).push(events.last())
    }
}

/// Whether `key` is held after `events`, going by the transitions of `key`
/// alone: its last one decides, and with none of them `initial` stands.
pub open spec fn held_after(initial: bool, key: KeyPressView, events: Seq<Transition>) -> bool
    decreases events.len(),
{
    if events.len() == 0 {
        initial
    } else if events.last().0 == key {
        events.last().1 == KeyPressState::Down
    } else {
        held_after(initial, key, events.drop_last())
    }
}

impl Modifiers {
    /// The state in which no modifier is held.
    pub open spec fn released() -> Modifiers {
        Modifiers { ctrl: false, shift: false, alt: false, sup: false }
    }

    /// Whether the modifier `key` is held. No other key ever is.
    pub open spec fn held(self, key: KeyPressView) -> bool {
        match key {
            KeyPressView::Ctrl => self.ctrl,
            KeyPressView::Alt => self.alt,
            KeyPressView::Shift => self.shift,
            KeyPressView::Super => self.sup,
            KeyPressView::Other(_) => false,
        }
    }

    /// The state after one transition: a modifier key is held once it went
    /// down and no longer once it went up; any other key changes nothing.
    pub open spec fn updated(self, key: KeyPressView, state: KeyPressState) -> Modifiers {
        let down = state == KeyPressState::Down;
        match key {
            KeyPressView::Ctrl => Modifiers { ctrl: down, ..self },
            KeyPressView::Alt => Modifiers { alt: down, ..self },
            KeyPressView::Shift => Modifiers { shift: down, ..self },
            KeyPressView::Super => Modifiers { sup: down, ..self },
            KeyPressView::Other(_) => self,
        }
    }

    /// The state after a sequence of transitions, applied in order.
    pub open spec fn after(self, events: Seq<Transition>) -> Modifiers
        decreases events.len(),
    {
        if events.len() == 0 {
            self
        } else {
            self.after(events.drop_last()).updated(events.last().0, events.last().1)
        }
    }

    /// The state with no modifier held.
    pub fn new() -> (state: Modifiers)
        ensures
            state == Modifiers::released(),
    {
        Modifiers { ctrl: false, shift: false, alt: false, sup: false }
    }

    /// Takes one key transition into the state.
    pub fn update(&mut self, key_press: &KeyPress, press_state: &KeyPressState)
        ensures
            *final(self) == old(self).updated(key_press@, *press_state),
    {
        let down = *press_state == KeyPressState::Down;
        match key_press {
            KeyPress::Alt => {
                self.alt = down;
            },
            KeyPress::Ctrl => {
                self.ctrl = down;
            },
            KeyPress::Shift => {
                self.shift = down;
            },
            KeyPress::Super => {
                self.sup = down;
            },
            KeyPress::Other(_) => {},
        }
    }
}

/// After any sequence of transitions each modifier is held exactly if its own
/// last transition was a press (or, with no transition of its own, if it was
/// held before), whatever other keys went up and down in between.
pub proof fn lemma_modifiers_follow_own_transitions(
    initial: Modifiers,
    events: Seq<Transition>,
    key: KeyPressView,
)
    requires
        !(key is Other),
    ensures
        initial.after(events).held(key) == held_after(initial.held(key), key, events),
    decreases events.len(),
{
    if events.len() > 0 {
        lemma_modifiers_follow_own_transitions(initial, events.drop_last(), key);
    }
}

/// Transitions of keys that are no modifiers leave no trace in the state: the
/// state after a sequence is the state after its modifier transitions alone.
pub proof fn lemma_modifiers_ignore_other_keys(initial: Modifiers, events: Seq<Transition>)
    ensures
        initial.after(events) == initial.after(modifier_transitions(events)),
    decreases events.len(),
{
    if events.len() > 0 {
        let rest = events.drop_last();
        lemma_modifiers_ignore_other_keys(initial, rest);
        if !(events.last().0 is Other) {
            let kept = modifier_transitions(rest).push(events.last());
            assert(kept.drop_last() =~= modifier_transitions(rest));
        }
    }
}

} // verus!
