//! A small set for items that can only be compared for equality.
use vstd::prelude::*;

verus! {

/// Something that a set can hold.
pub trait SetItem: Sized {
    /// What the item stands for.
    type Model;

    spec fn model(&self) -> Self::Model;

    /// Whether two items stand for the same.
    fn same_item(&self, other: &Self) -> (same: bool)
        ensures
            same == (self.model() == other.model()),
    ;

    /// A second copy of the item.
    fn copy_item(&self) -> (copy: Self)
        ensures
            copy.model() == self.model(),
    ;
}

/// What the items of a list stand for.
pub open spec fn models<T: SetItem>(items: Seq<T>) -> Seq<T::Model> {
    items.map_values(|item: T| item.model())
}

/// A list behind which an item is put that stands for something new. Another leaves it as it is.
pub open spec fn with_item<T: SetItem>(items: Seq<T>, item: T) -> Seq<T> {
    if models(items).contains(item.model()) {
        items
    } else {
        items.push(item)
    }
}

/// A list behind which the items of another are put, one after the other.
pub open spec fn with_items<T: SetItem>(items: Seq<T>, others: Seq<T>) -> Seq<T>
    decreases others.len(),
{
    if others.len() == 0 {
        items
    } else {
        with_item(with_items(items, others.drop_last()), others.last())
    }
}

/// A set backed by a vector. Nothing occurs twice.
pub struct ItemSet<T: SetItem> {
    items: Vec<T>,
}

impl<T: SetItem> ItemSet<T> {
    /// The items of the set, in the order in which they came.
    pub closed spec fn listed(self) -> Seq<T> {
        self.items@
    }

    pub open spec fn contents(self) -> Set<T::Model> {
        models(self.listed()).to_set()
    }

    /// Nothing occurs twice.
    #[verifier::type_invariant]
    closed spec fn well_formed(self) -> bool {
        models(self.items@).no_duplicates()
    }

    /// An empty set.
    pub fn new() -> (set: Self)
        ensures
            set.contents() == Set::<T::Model>::empty(),
            set.listed().len() == 0,
    {
        let set: ItemSet<T> = ItemSet { items: Vec::new() };
        assert(set.contents() =~= Set::<T::Model>::empty());
        set
    }

    /// Whether there is nothing in the set.
    pub fn is_empty(&self) -> (empty: bool)
        ensures
            empty == (self.contents() == Set::<T::Model>::empty()),
            empty == (self.listed().len() == 0),
    {
        proof {
            if self.items@.len() > 0 {
                let all = models(self.items@);
                assert(all.contains(all[0]));
                assert(self.contents().contains(all[0]));
            } else {
                assert(self.contents() =~= Set::<T::Model>::empty());
            }
        }
        self.items.len() == 0
    }

    /// Whether an item is in the set.
    pub fn contains(&self, item: &T) -> (found: bool)
        ensures
            found == self.contents().contains(item.model()),
    {
        let ghost all = models(self.items@);
        let mut i: usize = 0;
        while i < self.items.len()
            invariant
                i <= self.items@.len(),
                all == models(self.items@),
                all == models(self.listed()),
                forall|j: int| 0 <= j < i ==> #[trigger] all[j] != item.model(),
            decreases self.items@.len() - i,
        {
            if self.items[i].same_item(item) {
                assert(all[i as int] == item.model());
                assert(all.contains(item.model()));
                return true;
            }
            assert(all[i as int] != item.model());
            i += 1;
        }
        assert(!all.contains(item.model()));
        false
    }

    /// Puts an item into the set, unless it is there.
    pub fn insert(&mut self, item: T)
        ensures
            final(self).contents() == old(self).contents().insert(item.model()),
            final(self).listed() == with_item(old(self).listed(), item),
    {
        let ghost before = models(self.items@);
        if self.contains(&item) {
            assert(self.contents().insert(item.model()) =~= self.contents());
            assert(before.contains(item.model()));
            return;
        }
        proof {
            use_type_invariant(&*self);
        }
        let mut items: Vec<T> = Vec::new();
        std::mem::swap(&mut items, &mut self.items);
        items.push(item);
        proof {
            let after = models(items@);
            assert(after =~= before.push(item.model()));
            assert(!before.contains(item.model()));
            assert forall|i: int, j: int|
                0 <= i < after.len() && 0 <= j < after.len() && i != j implies after[i]
                != after[j] by {
                if i < before.len() && j < before.len() {
                    assert(before[i] != before[j]);
                } else if i < before.len() {
                    assert(before.contains(before[i]));
                } else {
                    assert(before.contains(before[j]));
                }
            }
            assert(after.to_set() =~= before.to_set().insert(item.model())) by {
                assert forall|m: T::Model| after.to_set().contains(m) == before.to_set().insert(
                    item.model(),
                ).contains(m) by {
                    if before.contains(m) {
                        let i = choose|i: int| 0 <= i < before.len() && before[i] == m;
                        assert(after[i] == m);
                    }
                    if m == item.model() {
                        assert(after[before.len() as int] == m);
                    }
                    if after.contains(m) {
                        let i = choose|i: int| 0 <= i < after.len() && after[i] == m;
                        if i < before.len() {
                            assert(before[i] == m);
                        }
                    }
                }
            }
        }
        self.items = items;
    }

    /// Takes everything out of another set and puts it into this one.
    pub fn take_all(&mut self, other: &mut Self)
        ensures
            final(self).contents() == old(self).contents().union(old(other).contents()),
            final(self).listed() == with_items(old(self).listed(), old(other).listed()),
            final(other).contents() == Set::<T::Model>::empty(),
            final(other).listed().len() == 0,
    {
        let ghost start = self.contents();
        let ghost listed = self.listed();
        let ghost all = other.items@;
        let mut rest: Vec<T> = Vec::new();
        std::mem::swap(&mut rest, &mut other.items);
        let mut i: usize = 0;
        assert(all.subrange(0, 0) =~= Seq::empty());
        assert(models(all.subrange(0, 0)).to_set() =~= Set::<T::Model>::empty());
        assert(self.contents() =~= start.union(models(all.subrange(0, 0)).to_set()));
        let n: usize = rest.len();
        while rest.len() > 0
            invariant
                i <= n,
                n == all.len(),
                rest@ == all.subrange(i as int, n as int),
                self.contents() == start.union(models(all.subrange(0, i as int)).to_set()),
                self.listed() == with_items(listed, all.subrange(0, i as int)),
            decreases rest@.len(),
        {
            let item = rest.remove(0);
            let ghost before = models(all.subrange(0, i as int));
            let ghost after = models(all.subrange(0, i + 1));
            proof {
                assert(item == all[i as int]);
                assert(rest@ =~= all.subrange(i + 1, n as int));
                assert(all.subrange(0, i + 1).drop_last() =~= all.subrange(0, i as int));
                assert(after =~= before.push(item.model()));
                assert(after.to_set() =~= before.to_set().insert(item.model())) by {
                    assert forall|m: T::Model| after.to_set().contains(
                        m,
                    ) == before.to_set().insert(item.model()).contains(m) by {
                        if before.contains(m) {
                            let k = choose|k: int| 0 <= k < before.len() && before[k] == m;
                            assert(after[k] == m);
                        }
                        if m == item.model() {
                            assert(after[before.len() as int] == m);
                        }
                        if after.contains(m) {
                            let k = choose|k: int| 0 <= k < after.len() && after[k] == m;
                            if k < before.len() {
                                assert(before[k] == m);
                            }
                        }
                    }
                }
            }
            self.insert(item);
            i += 1;
            assert(self.contents() =~= start.union(after.to_set()));
        }
        assert(all.subrange(0, i as int) =~= all);
        proof {
            assert(other.items@.len() == 0);
            assert(other.contents() =~= Set::<T::Model>::empty());
        }
    }

    /// How many items there are.
    pub fn len(&self) -> (n: usize)
        ensures
            n == self.listed().len(),
    {
        self.items.len()
    }

    /// The item at a position of the list.
    pub fn item_at(&self, i: usize) -> (item: &T)
        requires
            i < self.listed().len(),
        ensures
            *item == self.listed()[i as int],
    {
        &self.items[i]
    }
}

/// The models of a list are those of its items, in order.
pub proof fn law_models_are_those_of_the_items<T: SetItem>(items: Seq<T>, i: int)
    ensures
        models(items).len() == items.len(),
        0 <= i < items.len() ==> models(items)[i] == items[i].model(),
{
}

/// An item is taken in behind all others, unless an item with its model is there already.
pub proof fn law_items_are_taken_in_once<T: SetItem>(items: Seq<T>, item: T, i: int, model: T::Model)
    ensures
        items.is_prefix_of(with_item(items, item)),
        models(with_item(items, item)).contains(model) <==> models(items).contains(model) || model
            == item.model(),
        0 <= i < items.len() && items[i].model() == item.model() ==> with_item(items, item)
            == items,
        (forall|j: int| 0 <= j < items.len() ==> (#[trigger] items[j]).model() != item.model())
            ==> with_item(items, item) == items.push(item),
        models(items).no_duplicates() ==> models(with_item(items, item)).no_duplicates(),
{
    let after = with_item(items, item);
    assert(items =~= after.take(items.len() as int));
    if 0 <= i < items.len() && items[i].model() == item.model() {
        assert(models(items)[i] == item.model());
    }
    if !models(items).contains(item.model()) {
        assert(models(after) =~= models(items).push(item.model()));
        assert(models(after)[items.len() as int] == item.model());
        if models(items).contains(model) {
            let k = choose|k: int| 0 <= k < items.len() && models(items)[k] == model;
            assert(models(after)[k] == model);
        }
        if models(after).contains(model) && model != item.model() {
            let k = choose|k: int| 0 <= k < after.len() && models(after)[k] == model;
            assert(models(items)[k] == model);
        }
    } else {
        let k = choose|k: int| 0 <= k < items.len() && models(items)[k] == item.model();
        assert(items[k].model() == item.model());
    }
}

/// Several items are taken in one after the other, and a set holds the models of what is listed in it.
pub proof fn law_items_are_taken_in_one_by_one<T: SetItem>(
    items: Seq<T>,
    others: Seq<T>,
    item: T,
    set: ItemSet<T>,
    model: T::Model,
)
    ensures
        with_items(items, others.push(item)) == with_item(with_items(items, others), item),
        with_items(items, Seq::empty()) == items,
        set.contents().contains(model) <==> exists|i: int|
            0 <= i < set.listed().len() && (#[trigger] set.listed()[i]).model() == model,
{
    assert(others.push(item).drop_last() =~= others);
    let listed = models(set.listed());
    if listed.contains(model) {
        let i = choose|i: int| 0 <= i < listed.len() && listed[i] == model;
        assert(set.listed()[i].model() == model);
    }
    if exists|i: int| 0 <= i < set.listed().len() && (#[trigger] set.listed()[i]).model() == model {
        let i = choose|i: int|
            0 <= i < set.listed().len() && (#[trigger] set.listed()[i]).model() == model;
        assert(listed[i] == model);
    }
}

} // verus!
