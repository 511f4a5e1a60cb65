//! Conveniences on sequences of items: collecting them, showing them joined by
//! a separator, and the positions of the items a predicate picks.
use crate::text::{copy_string, i32_decimal, i32_to_string, join, join_spec, views};
use vstd::prelude::*;

verus! {

/// An item that can be shown as text.
pub trait Text {
    /// The text the item is shown as.
    spec fn text_of(&self) -> Seq<char>;

    fn to_text(&self) -> (r: String)
        ensures
            r@ == self.text_of(),
    ;
}

impl Text for String {
    open spec fn text_of(&self) -> Seq<char> {
        self@
    }

    fn to_text(&self) -> (r: String) {
        copy_string(self)
    }
}

impl Text for i32 {
    open spec fn text_of(&self) -> Seq<char> {
        i32_decimal(*self)
    }

    fn to_text(&self) -> (r: String) {
        i32_to_string(*self)
    }
}

/// The texts of the items.
pub open spec fn texts<T: Text>(items: Seq<T>) -> Seq<Seq<char>> {
    items.map_values(|t: T| t.text_of())
}

pub trait IterExt<T>: Sized {
    /// The items, in order, as a vector.
    fn collect_vec(self) -> Vec<T>;
}

impl<T> IterExt<T> for Vec<T> {
    fn collect_vec(self) -> (r: Vec<T>)
        ensures
            r@ == self@,
    {
        self
    }
}

/// Delimits the texts of the items with `sep` and returns a single string.
pub fn display<T: Text>(items: &Vec<T>, sep: &str) -> (r: String)
    ensures
        r@ == join_spec(texts(items@), sep@),
{
    let mut parts: Vec<String> = Vec::new();
    let mut i: usize = 0;
    while i < items.len()
        invariant
            i <= items.len(),
            views(parts@) == texts(items@).take(i as int),
        decreases items.len() - i,
    {
        let t = items[i].to_text();
        let ghost before = parts@;
        parts.push(t);
        assert(views(parts@) =~= views(before).push(t@));
        assert(texts(items@).take(i + 1) =~= texts(items@).take(i as int).push(items@[i as int].text_of()));
        i = i + 1;
    }
    assert(texts(items@).take(items.len() as int) =~= texts(items@));
    join(&parts, sep)
}

/// The indices of the items whose pick is true, in order.
pub open spec fn picked<T>(items: Seq<(usize, T)>, picks: Seq<bool>) -> Seq<usize>
    decreases items.len(),
{
    if items.len() == 0 || picks.len() < items.len() {
        Seq::empty()
    } else {
        let rest = picked(items.drop_last(), picks.take(items.len() - 1));
        if picks[items.len() - 1] {
            rest.push(items.last().0)
        } else {
            rest
        }
    }
}

pub trait IterExtPositions<T>: Sized {
    /// The indexed items, in order.
    spec fn indexed(&self) -> Seq<(usize, T)>;

    /// Returns the indices of elements for which `predicate` returns true
    fn positions<F: Fn(T) -> bool>(self, predicate: F) -> Vec<usize>
        requires
            forall|k: int|
                0 <= k < self.indexed().len() ==> call_requires(predicate, (#[trigger] self.indexed()[k].1,)),
    ;
}

impl<T> IterExtPositions<T> for Vec<(usize, T)> {
    open spec fn indexed(&self) -> Seq<(usize, T)> {
        self@
    }

    /// For each item, `predicate` answers once; the indices of the items it
    /// answered true for come out in order.
    fn positions<F: Fn(T) -> bool>(self, predicate: F) -> (r: Vec<usize>)
        ensures
            exists|picks: Seq<bool>|
                picks.len() == self@.len() && (forall|k: int|
                    0 <= k < self@.len() ==> call_ensures(predicate, (#[trigger] self@[k].1,), picks[k]))
                    && r@ == picked(self@, picks),
    {
        let ghost all = self@;
        assert(all == self.indexed());
        assert(all.len() <= usize::MAX) by {
            let n = self.len();
        }
        let mut rest = self;
        let mut r: Vec<usize> = Vec::new();
        let mut i: usize = 0;
        let ghost mut picks: Seq<bool> = Seq::empty();
        while rest.len() > 0
            invariant
                i + rest@.len() == all.len(),
                all.len() <= usize::MAX,
                rest@ == all.skip(i as int),
                picks.len() == i,
                forall|k: int| 0 <= k < all.len() ==> call_requires(predicate, (#[trigger] all[k].1,)),
                forall|k: int| 0 <= k < i ==> call_ensures(predicate, (#[trigger] all[k].1,), picks[k]),
                r@ == picked(all.take(i as int), picks),
            decreases rest.len(),
        {
            let ghost rest_before = rest@;
            let (index, item) = rest.remove(0);
            assert(rest_before[0] == all.skip(i as int)[0]);
            assert(rest@ =~= all.skip(i + 1));
            let ghost item_ghost = item;
            let yes = predicate(item);
            proof {
                let new_picks = picks.push(yes);
                assert(all.take(i + 1).drop_last() =~= all.take(i as int));
                assert(new_picks.take(i as int) =~= picks);
                assert(all.take(i + 1).last() == all[i as int]);
                picks = new_picks;
            }
            if yes {
                r.push(index);
            }
            i = i + 1;
        }
        assert(all.take(i as int) =~= all);
        r
    }
}

} // verus!
