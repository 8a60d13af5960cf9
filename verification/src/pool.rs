//! A pool of constants that hands out one index per distinct item.

use vstd::prelude::*;
use vstd::std_specs::cmp::PartialEqSpec;

verus! {

/// The position of the first item of `s` that equals `item`, if there is one.
pub open spec fn first_equal<Item: PartialEq>(s: Seq<Item>, item: Item) -> Option<int>
    decreases s.len(),
{
    if s.len() == 0 {
        None
    } else if s[0].eq_spec(&item) {
        Some(0)
    } else {
        match first_equal(s.drop_first(), item) {
            Some(k) => Some(k + 1),
            None => None,
        }
    }
}

/// Where no item before position `i` equals `item`, the first equal item is the one at
/// `i` if it equals `item`, and there is none if `i` is the end.
pub proof fn lemma_first_equal<Item: PartialEq>(s: Seq<Item>, item: Item, i: int)
    requires
        0 <= i <= s.len(),
        forall|j: int| 0 <= j < i ==> !(#[trigger] s[j]).eq_spec(&item),
    ensures
        i < s.len() && s[i].eq_spec(&item) ==> first_equal(s, item) == Some(i),
        i == s.len() ==> first_equal(s, item) is None,
    decreases i,
{
    if i > 0 {
        let t = s.drop_first();
        assert forall|j: int| 0 <= j < i - 1 implies !(#[trigger] t[j]).eq_spec(&item) by {
            assert(t[j] == s[j + 1]);
        }
        lemma_first_equal(t, item, i - 1);
        assert(!s[0].eq_spec(&item));
        if i < s.len() {
            assert(t[i - 1] == s[i]);
        }
    }
}

/// Where no item of `s` equals `item`, none of its items does.
pub proof fn lemma_first_equal_none<Item: PartialEq>(s: Seq<Item>, item: Item)
    requires
        first_equal(s, item) is None,
    ensures
        forall|j: int| 0 <= j < s.len() ==> !(#[trigger] s[j]).eq_spec(&item),
    decreases s.len(),
{
    if s.len() > 0 {
        let t = s.drop_first();
        lemma_first_equal_none(t, item);
        assert forall|j: int| 0 <= j < s.len() implies !(#[trigger] s[j]).eq_spec(&item) by {
            if j > 0 {
                assert(s[j] == t[j - 1]);
            }
        }
    }
}

/// Putting an item a second time gives the index it got the first time, and leaves the
/// pool as it is: where `put` turned the pool `before` into `after` and gave `index` for
/// `item`, the first item of `after` equal to `item` is at `index`, so a second `put` of
/// `item` gives `index` again and adds nothing. This holds of items whose `==` is lawful
/// and equals the item to itself.
pub proof fn lemma_put_again<Item: PartialEq>(before: Seq<Item>, after: Seq<Item>, item: Item, index: u32)
    requires
        Item::obeys_eq_spec(),
        item.eq_spec(&item),
        before.len() < u32::MAX,
        match first_equal(before, item) {
            Some(i) => index == i as u32 && after == before,
            None => index == before.len() as u32 && after == before.push(item),
        },
    ensures
        first_equal(after, item) == Some(index as int),
{
    match first_equal(before, item) {
        Some(i) => {
            lemma_first_equal_found(before, item);
        },
        None => {
            lemma_first_equal_none(before, item);
            assert forall|j: int| 0 <= j < before.len() implies !(#[trigger] after[j]).eq_spec(&item) by {
                assert(after[j] == before[j]);
            }
            lemma_first_equal(after, item, before.len() as int);
        },
    }
}

/// The first equal item lies inside the sequence.
pub proof fn lemma_first_equal_found<Item: PartialEq>(s: Seq<Item>, item: Item)
    ensures
        first_equal(s, item) matches Some(i) ==> 0 <= i < s.len(),
    decreases s.len(),
{
    if s.len() > 0 {
        lemma_first_equal_found(s.drop_first(), item);
    }
}

/// A pool of constants: each item put in gets the index of its first occurrence.
/// The items are kept in the order they were first put in; the index of an item is its
/// position.
pub struct ConstPool<Item> {
    const_stack: Vec<Item>,
}

impl<Item: PartialEq> ConstPool<Item> {
    /// The items of the pool, in the order they were first put in.
    pub closed spec fn view(&self) -> Seq<Item> {
        self.const_stack@
    }

    /// No item of the pool equals an item before it.
    pub open spec fn distinct(s: Seq<Item>) -> bool {
        forall|i: int, j: int| #![trigger s[i], s[j]] 0 <= i < j < s.len() ==> !s[i].eq_spec(&s[j])
    }

    /// An empty pool.
    pub fn new() -> (r: Self)
        ensures
            r.view() == Seq::<Item>::empty(),
    {
        ConstPool { const_stack: Vec::new() }
    }

    /// The index of `item` in the pool: that of the first equal item already there, else
    /// a new index, the pool's length, with `item` added at the end. The index is a `u32`,
    /// as the JVMS counts constants. When the items' `==` is lawful, equal items are never
    /// added twice. Whatever the items' `==`, the pool either keeps its items and gives
    /// an index below its length, or gains `item` at the end and gives its old length.
    pub fn put(&mut self, item: Item) -> (index: u32)
        ensures
            index as int <= old(self).view().len(),
            final(self).view() == old(self).view() ==> (index as int) < old(self).view().len(),
            final(self).view() == old(self).view().push(item) ==> index == old(self).view().len() as u32,
            Item::obeys_eq_spec() ==> match first_equal(old(self).view(), item) {
                Some(i) => index == i as u32 && final(self).view() == old(self).view(),
                None => index == old(self).view().len() as u32 && final(self).view() == old(self).view().push(item),
            },
            Item::obeys_eq_spec() && Self::distinct(old(self).view()) ==> Self::distinct(final(self).view()),
            final(self).view() == old(self).view() || final(self).view() == old(self).view().push(item),
    {
        let n = self.const_stack.len();
        let mut i: usize = 0;
        while i < n
            invariant
                n == self.const_stack@.len(),
                i <= n,
                Item::obeys_eq_spec() ==> forall|j: int| 0 <= j < i ==> !(#[trigger] self.const_stack@[j]).eq_spec(&item),
            decreases n - i,
        {
            if self.const_stack[i] == item {
                proof {
                    if Item::obeys_eq_spec() {
                        lemma_first_equal(self.const_stack@, item, i as int);
                    }
                }
                assert(i as u32 <= i) by (bit_vector);
                return i as u32;
            }
            i = i + 1;
        }
        let ghost before = self.const_stack@;
        let index = n as u32;
        assert(n as u32 <= n) by (bit_vector);
        self.const_stack.push(item);
        proof {
            if Item::obeys_eq_spec() {
                lemma_first_equal(before, item, n as int);
                assert forall|a: int, b: int|
                    #![trigger self.const_stack@[a], self.const_stack@[b]]
                    0 <= a < b < self.const_stack@.len() && Self::distinct(before) implies !self.const_stack@[a].eq_spec(
                        &self.const_stack@[b],
                    ) by {
                    if b == n {
                        assert(self.const_stack@[b] == item);
                    } else {
                        assert(self.const_stack@[a] == before[a] && self.const_stack@[b] == before[b]);
                    }
                }
            }
        }
        index
    }
}

} // verus!
