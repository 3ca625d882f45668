//! The overlay's state: the modifiers held and the history of key chords,
//! driven by input records and rendered once per display tick.

use crate::event::{press_state_of, InputEvent, KeyPressState};
use crate::history::{
    chords_of, lines_of, render_keycodes, render_line, render_lines, KeyHistoryItem,
};
use crate::layout::{
    key_update, key_update_of, keysym_to_keypress, resolved, KeyPress, KeyPressView, KeysymInfo,
    KeysymInfoView,
};
use crate::modifiers::{Modifiers, Transition};
use crate::runs::{
    group_runs, lemma_chord_is_kept_iff, lemma_pruning_is_unobservable,
    lemma_repeated_presses_collapse, lemma_shown_is_bounded, repeated, shown_groups, total_count,
    Chord, RenderGroup, MAX_LINES,
};
use std::collections::VecDeque;
use vstd::prelude::*;

verus! {

/// The overlay: the history of key chords and the modifiers held.
pub struct App {
    pressed_keycodes: VecDeque<KeyHistoryItem>,
    current_modifier_state: Modifiers,
}

/// Mathematical value of the overlay's state: the chords pressed, from the
/// oldest to the most recent, and the modifiers held.
pub ghost struct AppView {
    pub history: Seq<Chord>,
    pub modifiers: Modifiers,
}

impl AppView {
    /// The state after a key resolved to `key` went in `direction`. A modifier
    /// changes the modifiers held; the press of any other key adds its chord,
    /// with the modifiers held, to the history; its release changes nothing.
    pub open spec fn after_key(self, key: KeyPressView, direction: KeyPressState) -> AppView {
        match key {
            KeyPressView::Other(symbol) => if direction == KeyPressState::Down {
                AppView {
                    history: self.history.push(Chord { symbol, modifiers: self.modifiers }),
                    ..self
                }
            } else {
                self
            },
            _ => AppView { modifiers: self.modifiers.updated(key, direction), ..self },
        }
    }

    /// The state after a record for which the layout engine reported `info`.
    /// Only a press or a release of a key whose symbol resolves counts: any
    /// other record, autorepeat among them, leaves the state as it is.
    pub open spec fn after_event(self, event: InputEvent, info: KeysymInfoView) -> AppView {
        match key_update_of(event) {
            Some(update) => match resolved(info) {
                Some(key) => self.after_key(key, update.direction),
                None => self,
            },
            None => self,
        }
    }

    /// The state after a sequence of records, each with what the layout
    /// engine reported for it, taken in order.
    pub open spec fn after_events(self, events: Seq<(InputEvent, KeysymInfoView)>) -> AppView
        decreases events.len(),
    {
        if events.len() == 0 {
            self
        } else {
            self.after_events(events.drop_last()).after_event(events.last().0, events.last().1)
        }
    }

    /// The number of chords that a rendering of this state stands for.
    pub open spec fn shown_chords(self) -> nat {
        total_count(shown_groups(self.history.reverse()))
    }

    /// The lines that a rendering of this state shows, the most recent group
    /// first.
    pub open spec fn lines(self) -> Seq<Seq<char>> {
        render_lines(shown_groups(self.history.reverse()))
    }

    /// The state after a rendering: the history keeps the chords that the
    /// rendering stands for, and no older one.
    pub open spec fn after_render(self) -> AppView {
        AppView {
            history: self.history.skip(self.history.len() - self.shown_chords()),
            ..self
        }
    }
}

/// The records of a list, each with the mathematical value of what the layout
/// engine reported for it.
pub open spec fn reports_of(events: Seq<(InputEvent, KeysymInfo)>) -> Seq<
    (InputEvent, KeysymInfoView),
> {
    Seq::new(events.len(), |i: int| (events[i].0, events[i].1@))
}

impl View for App {
    type V = AppView;

    closed spec fn view(&self) -> AppView {
        AppView {
            history: chords_of(self.pressed_keycodes@),
            modifiers: self.current_modifier_state,
        }
    }
}

impl App {
    /// An overlay with an empty history and no modifier held.
    pub fn new() -> (app: App)
        ensures
            app@ == (AppView { history: Seq::empty(), modifiers: Modifiers::released() }),
    {
        let app = App { pressed_keycodes: VecDeque::new(), current_modifier_state: Modifiers::new() };
        assert(chords_of(app.pressed_keycodes@) =~= Seq::empty());
        app
    }

    /// The modifiers held.
    pub fn modifiers(&self) -> (held: Modifiers)
        ensures
            held == self@.modifiers,
    {
        self.current_modifier_state
    }

    /// The number of chords in the history.
    pub fn history_len(&self) -> (len: usize)
        ensures
            len == self@.history.len(),
    {
        self.pressed_keycodes.len()
    }

    /// Appends a chord to the history.
    pub fn on_keydown(&mut self, chord: KeyHistoryItem)
        ensures
            final(self)@ == (AppView { history: old(self)@.history.push(chord@), ..old(self)@ }),
    {
        self.pressed_keycodes.push_back(chord);
        assert(chords_of(self.pressed_keycodes@) =~= chords_of(old(self).pressed_keycodes@).push(
            chord@,
        ));
    }

    /// Takes one input record together with what the layout engine reported
    /// for its key, and updates the modifiers and the history.
    pub fn process_input_event(&mut self, event: &InputEvent, info: &KeysymInfo)
        ensures
            final(self)@ == old(self)@.after_event(*event, info@),
    {
        let update = match key_update(event) {
            Some(v) => v,
            None => {
                return ;
            },
        };
        let keypress = match keysym_to_keypress(info) {
            Some(v) => v,
            None => {
                return ;
            },
        };
        self.current_modifier_state.update(&keypress, &update.direction);
        match keypress {
            KeyPress::Other(key_s) => {
                if update.direction == KeyPressState::Down {
                    let modifiers = self.current_modifier_state;
                    self.on_keydown(KeyHistoryItem { key_s, modifiers });
                }
            },
            _ => {},
        }
    }

    /// One display tick: takes the records that came in since the last tick,
    /// each with what the layout engine reported for it, in their order, and
    /// then renders once, however many records there were.
    pub fn update(&mut self, events: &Vec<(InputEvent, KeysymInfo)>) -> (lines: Vec<String>)
        ensures
            lines_of(lines@) == old(self)@.after_events(reports_of(events@)).lines(),
            lines@.len() <= MAX_LINES,
            final(self)@ == old(self)@.after_events(reports_of(events@)).after_render(),
    {
        let ghost before = self@;
        let ghost reports = reports_of(events@);
        let n = events.len();
        let mut i: usize = 0;
        while i < n
            invariant
                n == events@.len(),
                reports == reports_of(events@),
                i <= n,
                self@ == before.after_events(reports.take(i as int)),
            decreases n - i,
        {
            self.process_input_event(&events[i].0, &events[i].1);
            proof {
                assert(reports.take(i + 1).drop_last() =~= reports.take(i as int));
            }
            i += 1;
        }
        proof {
            assert(reports.take(n as int) =~= reports);
        }
        self.render()
    }

    /// Renders the history as display lines, the most recent group first, and
    /// drops from the history the chords that are too old to be shown.
    pub fn render(&mut self) -> (lines: Vec<String>)
        ensures
            lines_of(lines@) == old(self)@.lines(),
            lines@.len() <= MAX_LINES,
            final(self)@ == old(self)@.after_render(),
    {
        let (lines, kept) = render_keycodes(&self.pressed_keycodes);
        let len = self.pressed_keycodes.len();
        if kept < len {
            let recent = self.pressed_keycodes.split_off(len - kept);
            self.pressed_keycodes = recent;
        }
        assert(chords_of(self.pressed_keycodes@) =~= chords_of(old(self).pressed_keycodes@).skip(
            len - kept,
        ));
        lines
    }
}

/// The key transitions that a sequence of records stands for: one for each
/// press or release of a key whose symbol resolves, in the order of the
/// records.
pub open spec fn transitions_of(events: Seq<(InputEvent, KeysymInfoView)>) -> Seq<Transition>
    decreases events.len(),
{
    if events.len() == 0 {
        Seq::empty()
    } else {
        let earlier = transitions_of(events.drop_last());
        match (key_update_of(events.last().0), resolved(events.last().1)) {
            (Some(update), Some(key)) => earlier.push((key, update.direction)),
            _ => earlier,
        }
    }
}

/// The modifiers held after any sequence of records are those that the key
/// transitions among the records lead to, one after the other.
pub proof fn lemma_modifiers_follow_transitions(
    state: AppView,
    events: Seq<(InputEvent, KeysymInfoView)>,
)
    ensures
        state.after_events(events).modifiers == state.modifiers.after(transitions_of(events)),
    decreases events.len(),
{
    if events.len() > 0 {
        lemma_modifiers_follow_transitions(state, events.drop_last());
        let earlier = transitions_of(events.drop_last());
        match (key_update_of(events.last().0), resolved(events.last().1)) {
            (Some(update), Some(key)) => {
                let all = earlier.push((key, update.direction));
                assert(all.drop_last() =~= earlier);
            },
            _ => {},
        }
    }
}

/// What a record can do to the state. A record that is no press or release
/// of a key (autorepeat among them) changes nothing. The modifiers change
/// only with a key that resolves to a modifier. The history changes only with
/// the press of a key that resolves to a symbol, and then by that one chord.
pub proof fn lemma_event_effects(state: AppView, event: InputEvent, info: KeysymInfoView)
    ensures
        press_state_of(event.value) is None ==> state.after_event(event, info) == state,
        key_update_of(event) is None ==> state.after_event(event, info) == state,
        resolved(info) is None || resolved(info)->0 is Other ==> state.after_event(
            event,
            info,
        ).modifiers == state.modifiers,
        state.after_event(event, info).history == match (key_update_of(event), resolved(info)) {
            (Some(update), Some(KeyPressView::Other(symbol))) => if update.direction
                == KeyPressState::Down {
                state.history.push(Chord { symbol, modifiers: state.modifiers })
            } else {
                state.history
            },
            _ => state.history,
        },
{
}

/// The press of a key that is no modifier, followed by its release, adds one
/// chord to the history and changes nothing else. After a history that is
/// empty or ends with another chord, that is one more group with the count
/// one, shown first; on an empty history it is the one line shown.
pub proof fn lemma_press_then_release(
    state: AppView,
    press: InputEvent,
    pressed: KeysymInfoView,
    release: InputEvent,
    released: KeysymInfoView,
    symbol: Seq<char>,
)
    requires
        key_update_of(press) matches Some(update) && update.direction == KeyPressState::Down,
        key_update_of(release) matches Some(update) && update.direction == KeyPressState::Up,
        resolved(pressed) == Some(KeyPressView::Other(symbol)),
        resolved(released) is None || resolved(released)->0 is Other,
    ensures
        ({
            let chord = Chord { symbol, modifiers: state.modifiers };
            let after = state.after_event(press, pressed).after_event(release, released);
            &&& after == AppView { history: state.history.push(chord), ..state }
            &&& state.history.len() == 0 || state.history.last() != chord ==> group_runs(
                after.history.reverse(),
            ) == seq![RenderGroup { chord, count: 1 }] + group_runs(state.history.reverse())
            &&& state.history.len() == 0 ==> after.lines() == seq![render_line(chord, 1)]
        }),
{
    let chord = Chord { symbol, modifiers: state.modifiers };
    assert(state.history.push(chord) =~= state.history + repeated(chord, 1));
    if state.history.len() == 0 || state.history.last() != chord {
        lemma_repeated_presses_collapse(state.history, chord, 1);
    }
}

/// A rendering shows no more than `MAX_LINES` lines, and what it drops from
/// the history never shows: the same state rendered again, at once or after
/// any further presses, gives the lines that the whole history would give.
pub proof fn lemma_render_is_stable(state: AppView, later: Seq<Chord>)
    ensures
        state.lines().len() <= MAX_LINES,
        state.after_render().history.len() == state.shown_chords() <= state.history.len(),
        state.after_render().lines() == state.lines(),
        (AppView { history: state.after_render().history + later, ..state }).lines() == (AppView {
            history: state.history + later,
            ..state
        }).lines(),
{
    lemma_pruning_is_unobservable(state.history, later);
    lemma_pruning_is_unobservable(state.history, Seq::empty());
}

/// A chord stays in the history over a rendering exactly if the chords from
/// it to the most recent one make no more than `MAX_LINES` groups; with more
/// groups than that after it, it is gone from this and every later rendering.
pub proof fn lemma_old_chords_leave(state: AppView, at: int)
    requires
        0 <= at < state.history.len(),
    ensures
        state.history.len() - state.after_render().history.len() <= at <==> group_runs(
            state.history.skip(at).reverse(),
        ).len() <= MAX_LINES,
{
    lemma_shown_is_bounded(state.history.reverse());
    lemma_chord_is_kept_iff(state.history, at);
}

} // verus!
