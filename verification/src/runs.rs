//! Run-length compression of a sequence of key chords, and what a rendering
//! shows of it.

use crate::modifiers::Modifiers;
use vstd::prelude::*;

verus! {

/// The most lines one rendering holds.
pub const MAX_LINES: usize = 40;

/// One visible key press: the text of its symbol and the modifiers that were
/// held when it went down.
pub ghost struct Chord {
    pub symbol: Seq<char>,
    pub modifiers: Modifiers,
}

/// A run of equal chords: the chord and how often it was pressed in a row.
pub ghost struct RenderGroup {
    pub chord: Chord,
    pub count: nat,
}

/// The groups after one more chord: it joins the last group where it equals
/// that group's chord, and else opens a group of its own.
pub open spec fn extend_groups(groups: Seq<RenderGroup>, chord: Chord) -> Seq<RenderGroup> {
    if groups.len() > 0 && groups.last().chord == chord {
        groups.update(groups.len() - 1, RenderGroup { chord, count: groups.last().count + 1 })
    } else {
        groups.push(RenderGroup { chord, count: 1 })
    }
}

/// Run-length compression: the runs of consecutive equal chords, in the order
/// of the chords.
pub open spec fn group_runs(chords: Seq<Chord>) -> Seq<RenderGroup>
    decreases chords.len(),
{
    if chords.len() == 0 {
        Seq::empty()
    } else {
        extend_groups(group_runs(chords.drop_last()), chords.last())
    }
}

/// The groups that one rendering shows: the first `MAX_LINES` runs.
pub open spec fn shown_groups(chords: Seq<Chord>) -> Seq<RenderGroup> {
    let groups = group_runs(chords);
    if groups.len() <= MAX_LINES {
        groups
    } else {
        groups.take(MAX_LINES as int)
    }
}

/// The number of chords that a sequence of groups stands for.
pub open spec fn total_count(groups: Seq<RenderGroup>) -> nat
    decreases groups.len(),
{
    if groups.len() == 0 {
        0
    } else {
        total_count(groups.drop_last()) + groups.last().count
    }
}

/// `n` presses of one chord in a row.
pub open spec fn repeated(chord: Chord, n: nat) -> Seq<Chord> {
    Seq::new(n, |i: int| chord)
}

/// The chords that a sequence of groups stands for: each group's chord as
/// often as its count says, in the order of the groups.
pub open spec fn expand(groups: Seq<RenderGroup>) -> Seq<Chord>
    decreases groups.len(),
{
    if groups.len() == 0 {
        Seq::empty()
    } else {
        expand(groups.drop_last()) + repeated(groups.last().chord, groups.last().count)
    }
}

/// The groups of a sequence of chords end with the run of its last chord,
/// hold at least one press each, and stand for every chord once.
pub proof fn lemma_groups_cover_chords(chords: Seq<Chord>)
    ensures
        total_count(group_runs(chords)) == chords.len(),
        group_runs(chords).len() <= chords.len(),
        chords.len() > 0 ==> group_runs(chords).len() > 0 && group_runs(chords).last().chord
            == chords.last(),
        forall|j: int| 0 <= j < group_runs(chords).len() ==> (#[trigger] group_runs(chords)[j]).count >= 1,
    decreases chords.len(),
{
    if chords.len() > 0 {
        let before = group_runs(chords.drop_last());
        lemma_groups_cover_chords(chords.drop_last());
        if before.len() > 0 && before.last().chord == chords.last() {
            assert(group_runs(chords).drop_last() =~= before.drop_last());
        } else {
            assert(group_runs(chords).drop_last() =~= before);
        }
    }
}

/// The groups of the first `k` chords are, but for the last of them, the
/// first groups of the whole; the last one is there too, as long or longer.
pub proof fn lemma_groups_of_prefix(chords: Seq<Chord>, k: int)
    requires
        0 <= k <= chords.len(),
    ensures
        group_runs(chords.take(k)).len() <= group_runs(chords).len(),
        forall|j: int|
            0 <= j < group_runs(chords.take(k)).len() - 1 ==> group_runs(chords)[j] == group_runs(
                chords.take(k),
            )[j],
        k > 0 ==> ({
            let last = group_runs(chords.take(k)).len() - 1;
            &&& last >= 0
            &&& group_runs(chords)[last].chord == group_runs(chords.take(k))[last].chord
            &&& group_runs(chords)[last].count >= group_runs(chords.take(k))[last].count
        }),
    decreases chords.len(),
{
    if k == chords.len() {
        assert(chords.take(k) =~= chords);
        lemma_groups_cover_chords(chords);
    } else {
        assert(chords.drop_last().take(k) =~= chords.take(k));
        lemma_groups_of_prefix(chords.drop_last(), k);
    }
}

/// Where the chord at `k` differs from the one before it, the groups of the
/// first `k` chords are complete: they are the first groups of the whole, and
/// more follow.
pub proof fn lemma_groups_complete_at_boundary(chords: Seq<Chord>, k: int)
    requires
        0 < k < chords.len(),
        chords[k - 1] != chords[k],
    ensures
        group_runs(chords.take(k)).len() < group_runs(chords).len(),
        group_runs(chords).take(group_runs(chords.take(k)).len() as int) == group_runs(
            chords.take(k),
        ),
{
    let head = group_runs(chords.take(k));
    let next = chords.take(k + 1);
    assert(next.drop_last() =~= chords.take(k));
    assert(group_runs(next) == head.push(RenderGroup { chord: chords[k], count: 1 }));
    lemma_groups_of_prefix(chords, k + 1);
}

/// The groups are the run-length encoding of the chords: written out again
/// they give the chords back, and no two neighbours hold the same chord.
pub proof fn lemma_groups_are_runs(chords: Seq<Chord>)
    ensures
        expand(group_runs(chords)) == chords,
        forall|j: int|
            0 < j < group_runs(chords).len() ==> group_runs(chords)[j - 1].chord != (
            #[trigger] group_runs(chords)[j]).chord,
    decreases chords.len(),
{
    if chords.len() > 0 {
        let before = group_runs(chords.drop_last());
        let groups = group_runs(chords);
        let chord = chords.last();
        lemma_groups_are_runs(chords.drop_last());
        if before.len() > 0 && before.last().chord == chord {
            assert(groups.drop_last() =~= before.drop_last());
        } else {
            assert(groups.drop_last() =~= before);
        }
        assert(chords =~= chords.drop_last().push(chord));
    }
}

/// Where the last chord of `a` differs from the first of `b`, no run reaches
/// from one into the other: the groups of both in a row are the groups of `a`
/// and then those of `b`.
pub proof fn lemma_groups_concat(a: Seq<Chord>, b: Seq<Chord>)
    requires
        a.len() == 0 || b.len() == 0 || a.last() != b.first(),
    ensures
        group_runs(a + b) == group_runs(a) + group_runs(b),
    decreases b.len(),
{
    if b.len() == 0 {
        assert(a + b =~= a);
        assert(group_runs(a) + group_runs(b) =~= group_runs(a));
    } else {
        let rest = b.drop_last();
        assert((a + b).drop_last() =~= a + rest);
        if rest.len() == 0 {
            assert(a + rest =~= a);
            lemma_groups_cover_chords(a);
        } else {
            lemma_groups_concat(a, rest);
            lemma_groups_cover_chords(rest);
        }
        assert(group_runs(a + b) =~= group_runs(a) + group_runs(b));
    }
}

/// One chord pressed `n` times in a row makes one group with the count `n`.
pub proof fn lemma_repeated_is_one_group(chord: Chord, n: nat)
    requires
        n >= 1,
    ensures
        group_runs(repeated(chord, n)) == seq![RenderGroup { chord, count: n }],
    decreases n,
{
    assert(repeated(chord, n).drop_last() =~= repeated(chord, (n - 1) as nat));
    if n > 1 {
        lemma_repeated_is_one_group(chord, (n - 1) as nat);
    } else {
        assert(group_runs(repeated(chord, 0)) =~= Seq::empty());
    }
}

/// Pressing one chord `n` times in a row, after a history that does not end
/// with that chord, puts one group with the count `n` in front of what was
/// shown before; the most recent group comes first.
pub proof fn lemma_repeated_presses_collapse(earlier: Seq<Chord>, chord: Chord, n: nat)
    requires
        n >= 1,
        earlier.len() == 0 || earlier.last() != chord,
    ensures
        group_runs((earlier + repeated(chord, n)).reverse()) == seq![
            RenderGroup { chord, count: n },
        ] + group_runs(earlier.reverse()),
        shown_groups((earlier + repeated(chord, n)).reverse()).len() >= 1,
        shown_groups((earlier + repeated(chord, n)).reverse())[0] == (RenderGroup {
            chord,
            count: n,
        }),
        earlier.len() == 0 ==> shown_groups((earlier + repeated(chord, n)).reverse()) == seq![
            RenderGroup { chord, count: n },
        ],
{
    let presses = repeated(chord, n);
    assert((earlier + presses).reverse() =~= presses + earlier.reverse());
    lemma_groups_concat(presses, earlier.reverse());
    lemma_repeated_is_one_group(chord, n);
}

/// A rendering never shows more than `MAX_LINES` groups, nor more chords
/// than there are.
pub proof fn lemma_shown_is_bounded(chords: Seq<Chord>)
    ensures
        shown_groups(chords).len() <= MAX_LINES,
        total_count(shown_groups(chords)) <= chords.len(),
{
    let groups = group_runs(chords);
    lemma_groups_cover_chords(chords);
    if groups.len() > MAX_LINES {
        lemma_total_count_of_prefix(groups, MAX_LINES as int);
    }
}

/// The first `m` groups stand for no more chords than all of them, and for
/// fewer where a group with at least one press is left out.
pub proof fn lemma_total_count_of_prefix(groups: Seq<RenderGroup>, m: int)
    requires
        0 <= m <= groups.len(),
    ensures
        total_count(groups.take(m)) <= total_count(groups),
        m < groups.len() && groups[m].count >= 1 ==> total_count(groups.take(m)) < total_count(
            groups,
        ),
    decreases groups.len(),
{
    if m == groups.len() {
        assert(groups.take(m) =~= groups);
    } else {
        assert(groups.drop_last().take(m) =~= groups.take(m));
        lemma_total_count_of_prefix(groups.drop_last(), m);
    }
}

/// Groups that hold, place by place, no more presses than those of a second
/// sequence of the same length stand for no more chords.
proof fn lemma_total_count_grows(smaller: Seq<RenderGroup>, larger: Seq<RenderGroup>)
    requires
        smaller.len() == larger.len(),
        forall|j: int| 0 <= j < smaller.len() ==> smaller[j].count <= larger[j].count,
    ensures
        total_count(smaller) <= total_count(larger),
    decreases smaller.len(),
{
    if smaller.len() > 0 {
        lemma_total_count_grows(smaller.drop_last(), larger.drop_last());
    }
}

/// The first `m` groups are the groups of the chords they stand for.
pub proof fn lemma_groups_of_shown_chords(chords: Seq<Chord>, m: int)
    requires
        0 <= m <= group_runs(chords).len(),
    ensures
        total_count(group_runs(chords).take(m)) <= chords.len(),
        group_runs(chords.take(total_count(group_runs(chords).take(m)) as int)) == group_runs(
            chords,
        ).take(m),
    decreases chords.len(),
{
    let groups = group_runs(chords);
    lemma_groups_cover_chords(chords);
    if m == groups.len() {
        assert(groups.take(m) =~= groups);
        assert(chords.take(chords.len() as int) =~= chords);
    } else {
        let rest = chords.drop_last();
        let before = group_runs(rest);
        assert(groups.take(m) =~= before.take(m));
        lemma_groups_of_shown_chords(rest, m);
        let shown = total_count(before.take(m)) as int;
        assert(rest.take(shown) =~= chords.take(shown));
    }
}

/// A chord of the history survives a rendering exactly if the chords from it
/// to the most recent one make no more than `MAX_LINES` groups. A chord with
/// more groups than that after it is neither shown nor kept.
pub proof fn lemma_chord_is_kept_iff(history: Seq<Chord>, at: int)
    requires
        0 <= at < history.len(),
    ensures
        history.len() - total_count(shown_groups(history.reverse())) <= at <==> group_runs(
            history.skip(at).reverse(),
        ).len() <= MAX_LINES,
{
    let recent = history.reverse();
    let upto = history.len() - at;
    assert(recent.take(upto) =~= history.skip(at).reverse());
    let part = group_runs(recent.take(upto));
    let groups = group_runs(recent);
    let m = part.len() as int;
    lemma_groups_of_prefix(recent, upto);
    lemma_groups_cover_chords(recent.take(upto));
    if m <= MAX_LINES {
        let shown = shown_groups(recent);
        assert(shown.take(m) =~= groups.take(m));
        lemma_total_count_of_prefix(shown, m);
        lemma_total_count_grows(part, groups.take(m));
    } else {
        assert(groups.take(MAX_LINES as int) =~= part.take(MAX_LINES as int));
        lemma_total_count_of_prefix(part, MAX_LINES as int);
    }
}

/// The groups of two sequences in a row are no fewer than those of the second.
proof fn lemma_groups_of_suffix(a: Seq<Chord>, b: Seq<Chord>)
    ensures
        group_runs(a + b).len() >= group_runs(b).len(),
    decreases b.len(),
{
    if b.len() > 0 {
        let rest = b.drop_last();
        assert((a + b).drop_last() =~= a + rest);
        lemma_groups_of_suffix(a, rest);
    }
}

/// Dropping the chords that a rendering does not stand for changes nothing
/// that is ever shown: whatever is pressed later, the rendering of the
/// shortened history is that of the whole.
pub proof fn lemma_pruning_is_unobservable(history: Seq<Chord>, later: Seq<Chord>)
    ensures
        total_count(shown_groups(history.reverse())) <= history.len(),
        shown_groups(
            (history.skip(history.len() - total_count(shown_groups(history.reverse())))
                + later).reverse(),
        ) == shown_groups((history + later).reverse()),
{
    let recent = history.reverse();
    let groups = group_runs(recent);
    let kept = total_count(shown_groups(recent)) as int;
    let front = later.reverse();
    lemma_shown_is_bounded(recent);
    lemma_groups_cover_chords(recent);
    assert((history + later).reverse() =~= front + recent);
    assert((history.skip(history.len() - kept) + later).reverse() =~= front + recent.take(kept));
    if groups.len() <= MAX_LINES {
        assert(recent.take(kept) =~= recent);
    } else {
        let shown = groups.take(MAX_LINES as int);
        lemma_groups_of_shown_chords(recent, MAX_LINES as int);
        lemma_total_count_of_prefix(groups, MAX_LINES as int);
        assert(recent[kept - 1] != recent[kept]) by {
            if recent[kept - 1] == recent[kept] {
                let next = recent.take(kept + 1);
                assert(next.drop_last() =~= recent.take(kept));
                assert(next.last() == recent[kept]);
                lemma_groups_of_prefix(recent, kept + 1);
                assert(group_runs(next).len() == MAX_LINES);
                assert(group_runs(next)[MAX_LINES - 1].count == shown[MAX_LINES - 1].count + 1);
                assert(false);
            }
        }
        let whole = front + recent;
        let cut = front.len() + kept;
        assert(whole.take(cut) =~= front + recent.take(kept));
        lemma_groups_complete_at_boundary(whole, cut);
        lemma_groups_of_suffix(front, recent.take(kept));
    }
}

} // verus!
