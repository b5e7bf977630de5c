//! The items of an envelope.
use crate::item::{Item, ItemView};
use smallvec::SmallVec;
use vstd::prelude::*;

verus! {

/// The items of an envelope, in order. Up to three of them stand in place, without allocation.
///
/// They are held in a `smallvec::SmallVec`. What that holds is given by the name [`items_seq`], and
/// the methods that call it say what they do to it.
#[verifier::external_body]
#[derive(Debug)]
pub struct Items {
    inner: SmallVec<[Item; 3]>,
}

/// An iterator over the items of an envelope.
pub type ItemIter<'a> = std::slice::Iter<'a, Item>;

/// The items of an envelope, for changing them in place.
pub type ItemIterMut<'a> = &'a mut [Item];

/// The items that an [`Items`] holds, in order.
pub uninterp spec fn items_seq(items: Items) -> Seq<Item>;

/// What items stand for.
pub open spec fn item_views(items: Seq<Item>) -> Seq<ItemView> {
    Seq::new(items.len(), |i: int| items[i]@)
}

/// Those of `all` whose outcome is `which`, in their order.
pub open spec fn selected<T>(all: Seq<(T, bool)>, which: bool) -> Seq<T>
    decreases all.len(),
{
    if all.len() == 0 {
        Seq::empty()
    } else {
        let earlier = selected(all.drop_last(), which);
        if all.last().1 == which {
            earlier.push(all.last().0)
        } else {
            earlier
        }
    }
}

/// Whether `i` is an index into `all`.
pub open spec fn is_index<T>(all: Seq<T>, i: int) -> bool {
    0 <= i < all.len()
}

/// Whether `outcomes` are `items`, each with what `pred` may return for it.
pub open spec fn judged<F: FnMut(&Item) -> bool>(
    pred: F,
    items: Seq<Item>,
    outcomes: Seq<(Item, bool)>,
) -> bool {
    &&& outcomes.len() == items.len()
    &&& forall|i: int|
        0 <= i < outcomes.len() ==> (#[trigger] outcomes[i]).0 == items[i] && call_ensures(
            pred,
            (&items[i],),
            outcomes[i].1,
        )
}

/// Splitting items by outcomes neither loses nor duplicates any.
pub proof fn lemma_selected_partition<T>(all: Seq<(T, bool)>, items: Seq<T>)
    requires
        items.len() == all.len(),
        forall|i: int| 0 <= i < all.len() ==> (#[trigger] all[i]).0 == items[i],
    ensures
        selected(all, true).to_multiset().add(selected(all, false).to_multiset())
            == items.to_multiset(),
        selected(all, true).len() + selected(all, false).len() == items.len(),
    decreases all.len(),
{
    broadcast use vstd::seq_lib::group_to_multiset_ensures;

    let yes = selected(all, true);
    let no = selected(all, false);
    if all.len() == 0 {
        assert(items =~= Seq::empty());
    } else {
        assert forall|i: int| 0 <= i < all.drop_last().len() implies (
        #[trigger] all.drop_last()[i]).0 == items.drop_last()[i] by {
            assert(all.drop_last()[i] == all[i]);
        }
        lemma_selected_partition(all.drop_last(), items.drop_last());
        assert(all[all.len() - 1].0 == items.last());
        assert(items =~= items.drop_last().push(items.last()));
    }
    assert(yes.to_multiset().add(no.to_multiset()) =~= items.to_multiset());
}

/// Taking one item out, with the last one put in its place, leaves all others.
pub proof fn lemma_taken_out<T>(items: Seq<T>, at: int)
    requires
        0 <= at < items.len(),
    ensures
        items.update(at, items.last()).drop_last().to_multiset() == items.to_multiset().remove(
            items[at],
        ),
{
    broadcast use vstd::seq_lib::group_to_multiset_ensures;

    let rest = items.update(at, items.last()).drop_last();
    let first = items.drop_last();
    assert(items =~= first.push(items.last()));
    if at == items.len() - 1 {
        assert(rest =~= first);
        assert(rest.to_multiset() =~= items.to_multiset().remove(items[at]));
    } else {
        assert(rest =~= first.update(at, items.last()));
        assert(rest.to_multiset() =~= items.to_multiset().remove(items[at]));
    }
}

impl Items {
    /// `SmallVec::new`: no items.
    #[verifier::external_body]
    pub(crate) fn new() -> (r: Self)
        ensures
            items_seq(r) == Seq::<Item>::empty(),
    {
        Items { inner: SmallVec::new() }
    }

    /// `SmallVec::len`: how many items there are.
    #[verifier::external_body]
    pub(crate) fn len(&self) -> (r: usize)
        ensures
            r == items_seq(*self).len(),
    {
        self.inner.len()
    }

    /// `SmallVec::is_empty`: whether there are no items.
    #[verifier::external_body]
    pub(crate) fn is_empty(&self) -> (r: bool)
        ensures
            r == (items_seq(*self).len() == 0),
    {
        self.inner.is_empty()
    }

    /// `SmallVec::push`: one more item, behind the others.
    #[verifier::external_body]
    pub(crate) fn push(&mut self, item: Item)
        ensures
            items_seq(*final(self)) == items_seq(*old(self)).push(item),
    {
        self.inner.push(item)
    }

    /// `SmallVec::as_slice`: the items, for looking at.
    #[verifier::external_body]
    pub(crate) fn as_slice(&self) -> (r: &[Item])
        ensures
            r@ == items_seq(*self),
    {
        self.inner.as_slice()
    }

    /// `SmallVec::as_mut_slice`: the items, for changing them in place.
    #[verifier::external_body]
    pub(crate) fn as_mut_slice(&mut self) -> (r: &mut [Item])
        ensures
            r@ == items_seq(*old(self)),
            items_seq(*final(self)) == final(r)@,
            final(r)@.len() == r@.len(),
    {
        self.inner.as_mut_slice()
    }

    /// `SmallVec::swap_remove`: takes one item out, and puts the last one in its place.
    #[verifier::external_body]
    pub(crate) fn swap_remove(&mut self, index: usize) -> (r: Item)
        requires
            index < items_seq(*old(self)).len(),
        ensures
            r == items_seq(*old(self))[index as int],
            items_seq(*final(self)) == items_seq(*old(self)).update(
                index as int,
                items_seq(*old(self)).last(),
            ).drop_last(),
    {
        self.inner.swap_remove(index)
    }

    /// `SmallVec::into_vec`: the items as a `Vec`.
    #[verifier::external_body]
    pub(crate) fn into_vec(self) -> (r: Vec<Item>)
        ensures
            r@ == items_seq(self),
    {
        self.inner.into_vec()
    }

    /// Hands each item to `pred` in turn, which may change it, and keeps those for which `pred`
    /// returns `true`, in their order.
    pub(crate) fn retain<F>(&mut self, mut pred: F) where F: FnMut(&mut Item) -> bool
        requires
            forall|item: &mut Item| #[trigger] call_requires(pred, (item,)),
        ensures
            exists|outcomes: Seq<(Item, bool)>|
                {
                    &&& outcomes.len() == items_seq(*old(self)).len()
                    &&& forall|i: int| #[trigger]
                        is_index(outcomes, i) ==> exists|item: &mut Item|
                            {
                                &&& *item == items_seq(*old(self))[i]
                                &&& *final(item) == outcomes[i].0
                                &&& #[trigger] call_ensures(pred, (item,), outcomes[i].1)
                            }
                    &&& items_seq(*final(self)) == #[trigger] selected(outcomes, true)
                },
    {
        let mut all = Items::new();
        core::mem::swap(self, &mut all);
        let ghost before = items_seq(all);
        let ghost given = pred;
        let all = all.into_vec();
        let ghost mut outcomes: Seq<(Item, bool)> = Seq::empty();
        let mut kept = Items::new();
        for item in iter: all
            invariant
                iter.seq() == before,
                outcomes.len() == iter.index(),
                items_seq(kept) == selected(outcomes, true),
                pred == given,
                forall|item: &mut Item| #[trigger] call_requires(pred, (item,)),
                forall|i: int| #[trigger]
                    is_index(outcomes, i) ==> exists|item: &mut Item|
                        {
                            &&& *item == before[i]
                            &&& *final(item) == outcomes[i].0
                            &&& #[trigger] call_ensures(given, (item,), outcomes[i].1)
                        },
        {
            let ghost handed = item;
            let mut item = item;
            let keep = pred(&mut item);
            proof {
                assert(exists|place: &mut Item|
                    {
                        &&& *place == before[iter.index()]
                        &&& *final(place) == item
                        &&& #[trigger] call_ensures(given, (place,), keep)
                    }) by {
                    assert(handed == before[iter.index()]);
                }
                let longer = outcomes.push((item, keep));
                assert(longer.drop_last() =~= outcomes);
                assert forall|i: int| #[trigger] is_index(longer, i) implies exists|item: &mut Item|
                    {
                        &&& *item == before[i]
                        &&& *final(item) == longer[i].0
                        &&& #[trigger] call_ensures(given, (item,), longer[i].1)
                    } by {
                    if i < outcomes.len() {
                        assert(is_index(outcomes, i));
                        assert(longer[i] == outcomes[i]);
                    } else {
                        assert(longer[i].0 == item && longer[i].1 == keep);
                    }
                }
                outcomes = longer;
            }
            if keep {
                kept.push(item);
            }
        }
        *self = kept;
    }
}

impl Clone for Items {
    fn clone(&self) -> (r: Self)
        ensures
            item_views(items_seq(r)) == item_views(items_seq(*self)),
    {
        let slice = self.as_slice();
        let mut items = Items::new();
        let mut i: usize = 0;
        while i < slice.len()
            invariant
                i <= slice@.len(),
                slice@ == items_seq(*self),
                items_seq(items).len() == i,
                forall|j: int| 0 <= j < i ==> (#[trigger] items_seq(items)[j])@ == slice@[j]@,
            decreases slice@.len() - i,
        {
            items.push(slice[i].clone());
            i += 1;
        }
        assert(item_views(items_seq(items)) =~= item_views(items_seq(*self)));
        items
    }
}

} // verus!
