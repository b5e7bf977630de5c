//! Splitting an envelope, and removing items from it, by a predicate.
use crate::envelope::{Envelope, EnvelopeView};
use crate::item::Item;
use crate::items::{is_index, items_seq, judged, selected, Items};
use vstd::prelude::*;

verus! {

/// Whether all outcomes are `which`.
pub open spec fn all_are<T>(outcomes: Seq<(T, bool)>, which: bool) -> bool {
    forall|i: int| 0 <= i < outcomes.len() ==> (#[trigger] outcomes[i]).1 == which
}

/// As much is selected as there is, exactly where all outcomes agree with the selection.
pub proof fn lemma_selected_all<T>(outcomes: Seq<(T, bool)>, which: bool)
    ensures
        selected(outcomes, which).len() <= outcomes.len(),
        selected(outcomes, which).len() == outcomes.len() <==> all_are(outcomes, which),
        selected(outcomes, which).len() + selected(outcomes, !which).len() == outcomes.len(),
    decreases outcomes.len(),
{
    if outcomes.len() > 0 {
        let earlier = outcomes.drop_last();
        lemma_selected_all(earlier, which);
        if all_are(earlier, which) && outcomes.last().1 == which {
            assert forall|i: int| 0 <= i < outcomes.len() implies (#[trigger] outcomes[i]).1
                == which by {
                if i < earlier.len() {
                    assert(earlier[i] == outcomes[i]);
                }
            }
        }
        if all_are(outcomes, which) {
            assert forall|i: int| 0 <= i < earlier.len() implies (#[trigger] earlier[i]).1
                == which by {
                assert(earlier[i] == outcomes[i]);
            }
            assert(outcomes[outcomes.len() - 1].1 == which);
        }
    }
}

/// Where a predicate accepts exactly the items that meet a condition, those with the outcome `true`
/// are the items that meet it, and those with `false` are the others.
pub proof fn lemma_judged_filter<F: FnMut(&Item) -> bool>(
    pred: F,
    items: Seq<Item>,
    outcomes: Seq<(Item, bool)>,
    condition: spec_fn(Item) -> bool,
)
    requires
        judged(pred, items, outcomes),
        forall|item: Item, outcome: bool| #[trigger]
            call_ensures(pred, (&item,), outcome) ==> outcome == condition(item),
    ensures
        selected(outcomes, true) == items.filter(condition),
        selected(outcomes, false) == items.filter(|item: Item| !condition(item)),
    decreases outcomes.len(),
{
    reveal(Seq::filter);
    let others = |item: Item| !condition(item);
    if outcomes.len() > 0 {
        let earlier = outcomes.drop_last();
        let first = items.drop_last();
        assert forall|i: int| 0 <= i < earlier.len() implies (#[trigger] earlier[i]).0 == first[i]
            && call_ensures(pred, (&first[i],), earlier[i].1) by {
            assert(earlier[i] == outcomes[i]);
        }
        lemma_judged_filter(pred, first, earlier, condition);
        let last = outcomes[outcomes.len() - 1];
        assert(call_ensures(pred, (&items.last(),), last.1));
    }
}

/// Asks `pred` about each item, and counts those that it accepts.
fn count<F>(items: &[Item], pred: &mut F) -> (r: usize) where F: FnMut(&Item) -> bool
    requires
        forall|item: &Item| #[trigger] call_requires(*old(pred), (item,)),
    ensures
        *final(pred) == *old(pred),
        exists|outcomes: Seq<(Item, bool)>| #[trigger]
            judged(*old(pred), items@, outcomes) && r == selected(outcomes, true).len(),
{
    let ghost mut outcomes: Seq<(Item, bool)> = Seq::empty();
    let mut accepted: usize = 0;
    let mut i: usize = 0;
    while i < items.len()
        invariant
            i <= items@.len(),
            accepted <= i,
            *pred == *old(pred),
            forall|item: &Item| #[trigger] call_requires(*pred, (item,)),
            judged(*old(pred), items@.take(i as int), outcomes),
            accepted == selected(outcomes, true).len(),
        decreases items@.len() - i,
    {
        let accept = pred(&items[i]);
        proof {
            let longer = outcomes.push((items@[i as int], accept));
            assert(longer.drop_last() =~= outcomes);
            let next = items@.take(i + 1);
            assert forall|j: int| 0 <= j < longer.len() implies (#[trigger] longer[j]).0 == next[j]
                && call_ensures(*old(pred), (&next[j],), longer[j].1) by {
                if j < i {
                    assert(longer[j] == outcomes[j]);
                    assert(next[j] == items@.take(i as int)[j]);
                }
            }
            outcomes = longer;
        }
        if accept {
            accepted += 1;
        }
        i += 1;
    }
    assert(items@.take(items@.len() as int) =~= items@);
    assert(judged(*old(pred), items@, outcomes));
    accepted
}

/// Asks `pred` about each item, and parts those that it accepts from the others.
fn partition<F>(items: Items, mut pred: F) -> (r: (Items, Items)) where F: FnMut(&Item) -> bool
    requires
        forall|item: &Item| #[trigger] call_requires(pred, (item,)),
    ensures
        exists|outcomes: Seq<(Item, bool)>| #[trigger]
            judged(pred, items_seq(items), outcomes) && items_seq(r.0) == selected(outcomes, true)
                && items_seq(r.1) == selected(outcomes, false),
{
    let ghost all = items_seq(items);
    let ghost given = pred;
    let ghost mut outcomes: Seq<(Item, bool)> = Seq::empty();
    let mut accepted = Items::new();
    let mut others = Items::new();
    let items = items.into_vec();
    for item in iter: items
        invariant
            iter.seq() == all,
            pred == given,
            forall|item: &Item| #[trigger] call_requires(pred, (item,)),
            judged(given, all.take(iter.index()), outcomes),
            items_seq(accepted) == selected(outcomes, true),
            items_seq(others) == selected(outcomes, false),
    {
        let accept = pred(&item);
        proof {
            assert(item == all[iter.index()]);
            let longer = outcomes.push((item, accept));
            assert(longer.drop_last() =~= outcomes);
            let next = all.take(iter.index() + 1);
            assert forall|j: int| 0 <= j < longer.len() implies (#[trigger] longer[j]).0 == next[j]
                && call_ensures(given, (&next[j],), longer[j].1) by {
                if j < iter.index() {
                    assert(longer[j] == outcomes[j]);
                    assert(next[j] == all.take(iter.index())[j]);
                }
            }
            outcomes = longer;
        }
        if accept {
            accepted.push(item);
        } else {
            others.push(item);
        }
    }
    assert(all.take(all.len() as int) =~= all);
    assert(judged(given, all, outcomes));
    (accepted, others)
}

impl Envelope {
    /// Splits the envelope by the given predicate.
    ///
    /// The predicate passed to `split_by()` can return `true`, or `false`. If it returns `true` or
    /// `false` for all items, then this returns `None`. Otherwise, a new envelope is constructed
    /// with all items that return `true`. Items that return `false` remain in this envelope.
    ///
    /// The returned envelope assumes the same headers.
    ///
    /// The predicate is asked about each item first to see whether there is anything to split, and
    /// if so once more.
    pub fn split_by<F>(&mut self, mut f: F) -> (r: Option<Box<Self>>) where F: FnMut(&Item) -> bool
        requires
            forall|item: &Item| #[trigger] call_requires(f, (item,)),
        ensures
            match r {
                None => {
                    &&& exists|first: Seq<(Item, bool)>| #[trigger]
                        judged(f, old(self)@.items, first) && (all_are(first, true) || all_are(
                            first,
                            false,
                        ))
                    &&& final(self)@ == old(self)@
                },
                Some(split) => {
                    &&& exists|first: Seq<(Item, bool)>| #[trigger]
                        judged(f, old(self)@.items, first) && !all_are(first, true) && !all_are(
                            first,
                            false,
                        )
                    &&& exists|second: Seq<(Item, bool)>|
                        {
                            &&& #[trigger] judged(f, old(self)@.items, second)
                            &&& split@ == (EnvelopeView {
                                items: selected(second, true),
                                ..old(self)@
                            })
                            &&& final(self)@ == (EnvelopeView {
                                items: selected(second, false),
                                ..old(self)@
                            })
                        }
                },
            },
    {
        let split_count = count(self.items.as_slice(), &mut f);
        proof {
            let first = choose|first: Seq<(Item, bool)>| #[trigger]
                judged(f, old(self)@.items, first) && split_count == selected(first, true).len();
            lemma_selected_all(first, true);
            lemma_selected_all(first, false);
        }
        if split_count == self.len() || split_count == 0 {
            return None;
        }
        let mut old_items = Items::new();
        core::mem::swap(&mut self.items, &mut old_items);
        let (split_items, own_items) = partition(old_items, f);
        self.items = own_items;
        Some(Box::new(Envelope { headers: self.headers.clone(), items: split_items }))
    }

    /// Retains only the items specified by the predicate.
    ///
    /// In other words, remove all elements where `f(&item)` returns `false`. This method operates
    /// in place and preserves the order of the retained items.
    pub fn retain_items<F>(&mut self, f: F) where F: FnMut(&mut Item) -> bool
        requires
            forall|item: &mut Item| #[trigger] call_requires(f, (item,)),
        ensures
            final(self)@.headers == old(self)@.headers,
            exists|outcomes: Seq<(Item, bool)>|
                {
                    &&& outcomes.len() == old(self)@.items.len()
                    &&& forall|i: int| #[trigger]
                        is_index(outcomes, i) ==> exists|item: &mut Item|
                            {
                                &&& *item == old(self)@.items[i]
                                &&& *final(item) == outcomes[i].0
                                &&& #[trigger] call_ensures(f, (item,), outcomes[i].1)
                            }
                    &&& final(self)@.items == #[trigger] selected(outcomes, true)
                },
    {
        self.items.retain(f)
    }
}

} // verus!
