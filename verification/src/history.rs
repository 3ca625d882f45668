//! The key history and its run-length compressed rendering.

use crate::modifiers::Modifiers;
use crate::runs::{
    group_runs, lemma_groups_complete_at_boundary, lemma_groups_cover_chords, shown_groups,
    total_count, Chord, RenderGroup, MAX_LINES,
};
use std::collections::VecDeque;
use vstd::prelude::*;
use vstd::string::StringExecFns;

verus! {

/// One visible key press: the text of its symbol and the modifiers that were
/// held when it went down.
#[derive(Clone, Debug, PartialEq, Eq)]
pub struct KeyHistoryItem {
    pub key_s: String,
    pub modifiers: Modifiers,
}

impl View for KeyHistoryItem {
    type V = Chord;

    open spec fn view(&self) -> Chord {
        Chord { symbol: self.key_s@, modifiers: self.modifiers }
    }
}

/// The chords of a history, in its order: from the oldest to the most recent.
pub open spec fn chords_of(items: Seq<KeyHistoryItem>) -> Seq<Chord> {
    Seq::new(items.len(), |i: int| items[i]@)
}

/// The decimal digit for a number below ten.
pub open spec fn digit_char(d: nat) -> char {
    if d == 0 {
        '0'
    } else if d == 1 {
        '1'
    } else if d == 2 {
        '2'
    } else if d == 3 {
        '3'
    } else if d == 4 {
        '4'
    } else if d == 5 {
        '5'
    } else if d == 6 {
        '6'
    } else if d == 7 {
        '7'
    } else if d == 8 {
        '8'
    } else {
        '9'
    }
}

/// A number in decimal, without leading zeros.
pub open spec fn decimal(n: nat) -> Seq<char>
    decreases n,
{
    if n < 10 {
        seq![digit_char(n)]
    } else {
        decimal(n / 10).push(digit_char(n % 10))
    }
}

/// The held modifiers, each as its name and `" + "`, in the order Alt, Super,
/// Ctrl, Shift.
pub open spec fn modifier_prefix(modifiers: Modifiers) -> Seq<char> {
    (if modifiers.alt {
        "Alt + "@
    } else {
        Seq::empty()
    }) + (if modifiers.sup {
        "Super + "@
    } else {
        Seq::empty()
    }) + (if modifiers.ctrl {
        "Ctrl + "@
    } else {
        Seq::empty()
    }) + (if modifiers.shift {
        "Shift + "@
    } else {
        Seq::empty()
    })
}

/// The repeat mark of a group: a multiplication sign and the count, for a
/// chord pressed more than once; nothing for a single press.
pub open spec fn count_suffix(count: nat) -> Seq<char> {
    if count > 1 {
        seq!['\u{d7}'] + decimal(count)
    } else {
        Seq::empty()
    }
}

/// The display line of a group.
pub open spec fn render_line(chord: Chord, count: nat) -> Seq<char> {
    modifier_prefix(chord.modifiers) + chord.symbol + count_suffix(count)
}

/// The display lines of a sequence of groups, in its order.
pub open spec fn render_lines(groups: Seq<RenderGroup>) -> Seq<Seq<char>> {
    Seq::new(groups.len(), |i: int| render_line(groups[i].chord, groups[i].count))
}

/// Whether two entries of the history are presses of the same chord.
pub fn is_same_key_chord(a: &KeyHistoryItem, b: &KeyHistoryItem) -> (same: bool)
    ensures
        same == (a@ == b@),
{
    a.key_s == b.key_s && a.modifiers == b.modifiers
}

fn digit_str(d: usize) -> (text: &'static str)
    requires
        d < 10,
    ensures
        text@ == seq![digit_char(d as nat)],
{
    proof {
        reveal_strlit("0");
        reveal_strlit("1");
        reveal_strlit("2");
        reveal_strlit("3");
        reveal_strlit("4");
        reveal_strlit("5");
        reveal_strlit("6");
        reveal_strlit("7");
        reveal_strlit("8");
        reveal_strlit("9");
    }
    let text = if d == 0 {
        "0"
    } else if d == 1 {
        "1"
    } else if d == 2 {
        "2"
    } else if d == 3 {
        "3"
    } else if d == 4 {
        "4"
    } else if d == 5 {
        "5"
    } else if d == 6 {
        "6"
    } else if d == 7 {
        "7"
    } else if d == 8 {
        "8"
    } else {
        "9"
    };
    text
}

fn append_decimal(out: &mut String, n: usize)
    ensures
        final(out)@ == old(out)@ + decimal(n as nat),
    decreases n,
{
    if n >= 10 {
        append_decimal(out, n / 10);
    }
    out.append(digit_str(n % 10));
}

/// Renders one group: the chord and, for more than one press, the count.
pub fn render_item(item: &KeyHistoryItem, count: &usize) -> (line: String)
    ensures
        line@ == render_line(item@, *count as nat),
{
    let mut line = String::new();
    if item.modifiers.alt {
        line.append("Alt + ");
    }
    if item.modifiers.sup {
        line.append("Super + ");
    }
    if item.modifiers.ctrl {
        line.append("Ctrl + ");
    }
    if item.modifiers.shift {
        line.append("Shift + ");
    }
    line.append(item.key_s.as_str());
    if *count > 1 {
        proof {
            reveal_strlit("\u{d7}");
        }
        line.append("\u{d7}");
        append_decimal(&mut line, *count);
    }
    line
}

/// The texts of a list of lines.
pub open spec fn lines_of(lines: Seq<String>) -> Seq<Seq<char>> {
    Seq::new(lines.len(), |i: int| lines[i]@)
}

/// Lines that show all groups but the last, and then one more line for the
/// last group, show all groups.
proof fn lemma_lines_grow(before: Seq<String>, after: Seq<String>, groups: Seq<RenderGroup>)
    requires
        groups.len() > 0,
        lines_of(before) == render_lines(groups.drop_last()),
        after.len() == before.len() + 1,
        after.drop_last() == before,
        after.last()@ == render_line(groups.last().chord, groups.last().count),
    ensures
        lines_of(after) == render_lines(groups),
{
    assert(render_lines(groups.drop_last()).len() == groups.len() - 1);
    assert forall|j: int| 0 <= j < after.len() implies lines_of(after)[j] == render_lines(
        groups,
    )[j] by {
        if j < before.len() {
            assert(lines_of(before)[j] == render_lines(groups.drop_last())[j]);
        }
    }
}

/// Renders a history, given from the oldest chord to the most recent, as
/// lines from the most recent group to the oldest, no more than `MAX_LINES`
/// of them. Beside the lines it returns how many of the most recent chords
/// the lines stand for.
pub fn render_keycodes(key_history: &VecDeque<KeyHistoryItem>) -> (rendered: (Vec<String>, usize))
    ensures
        lines_of(rendered.0@) == render_lines(shown_groups(chords_of(key_history@).reverse())),
        rendered.1 == total_count(shown_groups(chords_of(key_history@).reverse())),
        rendered.0@.len() <= MAX_LINES,
        rendered.1 <= key_history@.len(),
{
    let n = key_history.len();
    let mut ret: Vec<String> = Vec::new();
    let ghost chords = chords_of(key_history@).reverse();
    if n == 0 {
        return (ret, 0);
    }
    let mut start: usize = 0;
    let mut i: usize = 1;
    proof {
        reveal_with_fuel(group_runs, 2);
    }
    while i < n
        invariant
            n == key_history@.len(),
            chords == chords_of(key_history@).reverse(),
            start < i <= n,
            ret@.len() < MAX_LINES,
            group_runs(chords.take(i as int)).len() == ret@.len() + 1,
            lines_of(ret@) == render_lines(group_runs(chords.take(i as int)).drop_last()),
            group_runs(chords.take(i as int)).last() == (RenderGroup {
                chord: chords[start as int],
                count: (i - start) as nat,
            }),
        decreases n - i,
    {
        let ghost groups = group_runs(chords.take(i as int));
        proof {
            assert(chords.take(i + 1).drop_last() =~= chords.take(i as int));
        }
        if !is_same_key_chord(&key_history[n - 1 - i], &key_history[n - 1 - start]) {
            let count = i - start;
            let ghost shown = ret@;
            ret.push(render_item(&key_history[n - 1 - start], &count));
            proof {
                assert(ret@.drop_last() =~= shown);
                lemma_lines_grow(shown, ret@, groups);
            }
            if ret.len() == MAX_LINES {
                proof {
                    lemma_groups_cover_chords(chords.take(i as int));
                    lemma_groups_complete_at_boundary(chords, i as int);
                }
                return (ret, i);
            }
            start = i;
        }
        i += 1;
    }
    let count = n - start;
    let ghost shown = ret@;
    ret.push(render_item(&key_history[n - 1 - start], &count));
    proof {
        assert(chords.take(n as int) =~= chords);
        lemma_groups_cover_chords(chords);
        assert(ret@.drop_last() =~= shown);
        lemma_lines_grow(shown, ret@, group_runs(chords));
    }
    (ret, n)
}

} // verus!
