//! The order of a catalog: by display, then the widest first, then the
//! tallest first.

use crate::mode::Mode;
use vstd::prelude::*;
use vstd::seq_lib::*;

verus! {

/// Whether `a` may stand before `b` in a catalog: its display comes first;
/// or, on one display, it is wider; or, at one width, it is at least as tall.
pub open spec fn precedes(a: Mode, b: Mode) -> bool {
    a.display < b.display || (a.display == b.display && a.width > b.width) || (a.display
        == b.display && a.width == b.width && a.height >= b.height)
}

/// Whether every entry of `modes` may stand before every later one.
pub open spec fn catalog_sorted(modes: Seq<Mode>) -> bool {
    forall|i: int, j: int|
        #![trigger modes[i], modes[j]]
        0 <= i < j < modes.len() ==> precedes(modes[i], modes[j])
}

/// How many entries at the head of `sorted` may stand before `mode`.
pub open spec fn leading(sorted: Seq<Mode>, mode: Mode) -> nat
    decreases sorted.len(),
{
    if sorted.len() == 0 || !precedes(sorted[0], mode) {
        0
    } else {
        1 + leading(sorted.drop_first(), mode)
    }
}

/// `sorted` with `mode` put behind the entries at its head that may stand
/// before it.
pub open spec fn placed(sorted: Seq<Mode>, mode: Mode) -> Seq<Mode> {
    sorted.insert(leading(sorted, mode) as int, mode)
}

/// The modes of `modes` in catalog order: each in turn is put into place
/// among those before it, so that modes that tie keep the order they came in.
pub open spec fn arranged(modes: Seq<Mode>) -> Seq<Mode>
    decreases modes.len(),
{
    if modes.len() == 0 {
        Seq::empty()
    } else {
        placed(arranged(modes.drop_last()), modes.last())
    }
}

/// Putting one more element into a sequence adds that element, and nothing
/// else, to what the sequence holds.
pub proof fn lemma_insert_to_multiset<A>(s: Seq<A>, p: int, x: A)
    requires
        0 <= p <= s.len(),
    ensures
        s.insert(p, x).to_multiset() =~= s.to_multiset().insert(x),
{
    broadcast use group_to_multiset_ensures;

    let t = s.insert(p, x);
    assert(t.remove(p) =~= s);
    assert(t[p] == x);
    assert(t.contains(x));
    to_multiset_remove(t, p);
    assert(t.to_multiset().count(x) > 0);
    assert(t.to_multiset() =~= t.to_multiset().remove(x).insert(x));
}

/// The entries counted by `leading` may stand before `mode`, and the entry
/// behind them, if there is one, may not.
pub proof fn lemma_leading(sorted: Seq<Mode>, mode: Mode)
    ensures
        leading(sorted, mode) <= sorted.len(),
        forall|k: int| 0 <= k < leading(sorted, mode) ==> precedes(#[trigger] sorted[k], mode),
        leading(sorted, mode) < sorted.len() ==> !precedes(
            sorted[leading(sorted, mode) as int],
            mode,
        ),
    decreases sorted.len(),
{
    if sorted.len() != 0 && precedes(sorted[0], mode) {
        let rest = sorted.drop_first();
        lemma_leading(rest, mode);
        assert forall|k: int| 0 <= k < leading(sorted, mode) implies precedes(
            #[trigger] sorted[k],
            mode,
        ) by {
            if k > 0 {
                assert(sorted[k] == rest[k - 1]);
            }
        }
        if leading(sorted, mode) < sorted.len() {
            assert(sorted[leading(sorted, mode) as int] == rest[leading(rest, mode) as int]);
        }
    }
}

/// Putting a mode into its place keeps a catalog sorted and adds that mode,
/// and nothing else, to what it holds.
pub proof fn lemma_placed_sorted(sorted: Seq<Mode>, mode: Mode)
    requires
        catalog_sorted(sorted),
    ensures
        catalog_sorted(placed(sorted, mode)),
        placed(sorted, mode).to_multiset() == sorted.to_multiset().insert(mode),
        placed(sorted, mode).len() == sorted.len() + 1,
{
    lemma_leading(sorted, mode);
    let p = leading(sorted, mode) as int;
    lemma_insert_to_multiset(sorted, p, mode);
    let after = placed(sorted, mode);
    assert forall|i: int, j: int| 0 <= i < j < after.len() implies precedes(
        after[i],
        after[j],
    ) by {
        if j < p {
            assert(after[i] == sorted[i] && after[j] == sorted[j]);
        } else if j == p {
            assert(after[i] == sorted[i]);
        } else if i == p {
            assert(after[j] == sorted[j - 1]);
            if p < j - 1 {
                assert(precedes(sorted[p], sorted[j - 1]));
            }
        } else if i < p {
            assert(after[i] == sorted[i] && after[j] == sorted[j - 1]);
        } else {
            assert(after[i] == sorted[i - 1] && after[j] == sorted[j - 1]);
        }
    }
}

/// A catalog is sorted and holds the modes it was made of, each as often as
/// it came: of any two entries, the earlier is on an earlier display; or, on
/// one display, wider; or, at one width, at least as tall.
pub proof fn lemma_arranged_sorted(modes: Seq<Mode>)
    ensures
        catalog_sorted(arranged(modes)),
        arranged(modes).to_multiset() == modes.to_multiset(),
        arranged(modes).len() == modes.len(),
    decreases modes.len(),
{
    broadcast use group_to_multiset_ensures;

    if modes.len() == 0 {
        assert(modes =~= Seq::<Mode>::empty());
    } else {
        lemma_arranged_sorted(modes.drop_last());
        lemma_placed_sorted(arranged(modes.drop_last()), modes.last());
        assert(modes =~= modes.drop_last().push(modes.last()));
        to_multiset_build(modes.drop_last(), modes.last());
    }
}

/// Whether `a` may stand before `b`.
pub fn mode_precedes(a: &Mode, b: &Mode) -> (r: bool)
    ensures
        r == precedes(*a, *b),
{
    a.display < b.display || (a.display == b.display && a.width > b.width) || (a.display
        == b.display && a.width == b.width && a.height >= b.height)
}

/// Puts `mode` into the sorted `sorted`, behind the entries at its head that
/// may stand before it.
pub fn insert_sorted(sorted: &mut Vec<Mode>, mode: Mode)
    requires
        catalog_sorted(old(sorted)@),
    ensures
        final(sorted)@ == placed(old(sorted)@, mode),
        catalog_sorted(final(sorted)@),
        final(sorted)@.to_multiset() == old(sorted)@.to_multiset().insert(mode),
        final(sorted)@.len() == old(sorted)@.len() + 1,
{
    let mut p: usize = 0;
    assert(sorted@.skip(0) =~= sorted@);
    while p < sorted.len() && mode_precedes(&sorted[p], &mode)
        invariant
            p <= sorted.len(),
            sorted@ == old(sorted)@,
            leading(sorted@, mode) == p + leading(sorted@.skip(p as int), mode),
        decreases sorted.len() - p,
    {
        proof {
            assert(sorted@.skip(p as int)[0] == sorted@[p as int]);
            assert(sorted@.skip(p as int).drop_first() =~= sorted@.skip(p + 1));
        }
        p = p + 1;
    }
    proof {
        if p < sorted.len() {
            assert(sorted@.skip(p as int)[0] == sorted@[p as int]);
        }
        lemma_placed_sorted(sorted@, mode);
    }
    sorted.insert(p, mode);
}

/// The modes of `modes` in catalog order.
pub fn sort_modes(modes: &Vec<Mode>) -> (sorted: Vec<Mode>)
    ensures
        sorted@ == arranged(modes@),
        catalog_sorted(sorted@),
        sorted@.to_multiset() == modes@.to_multiset(),
        sorted@.len() == modes@.len(),
{
    let mut sorted: Vec<Mode> = Vec::new();
    let mut i: usize = 0;
    assert(modes@.take(0) =~= Seq::<Mode>::empty());
    while i < modes.len()
        invariant
            i <= modes.len(),
            sorted@ == arranged(modes@.take(i as int)),
            catalog_sorted(sorted@),
        decreases modes.len() - i,
    {
        proof {
            assert(modes@.take(i + 1).drop_last() =~= modes@.take(i as int));
            assert(modes@.take(i + 1).last() == modes@[i as int]);
        }
        insert_sorted(&mut sorted, modes[i]);
        i = i + 1;
    }
    proof {
        assert(modes@.take(i as int) =~= modes@);
        lemma_arranged_sorted(modes@);
    }
    sorted
}

} // verus!
