//! An actor's inventory: the items it carries, in the order picked up.
use vstd::prelude::*;

verus! {

/// Number of occurrences of `item` in `s`.
pub open spec fn count_of(s: Seq<u32>, item: u32) -> nat
    decreases s.len(),
{
    if s.len() == 0 {
        0
    } else {
        count_of(s.drop_last(), item) + if s.last() == item { 1nat } else { 0nat }
    }
}

/// Items carried, each named by its kind; the last one is dropped first.
pub struct Inventory {
    pub content: Vec<u32>,
}

impl Inventory {
    /// An empty inventory.
    pub fn new() -> (r: Inventory)
        ensures
            r.content@.len() == 0,
    {
        Inventory { content: Vec::new() }
    }

    /// Picks up an item.
    pub fn add(&mut self, name: u32)
        ensures
            final(self).content@ == old(self).content@.push(name),
    {
        self.content.push(name);
    }

    /// How many items of the kind `name` are carried.
    pub fn amount(&self, name: u32) -> (r: usize)
        ensures
            r == count_of(self.content@, name),
    {
        let s = &self.content;
        let mut n: usize = 0;
        let mut i: usize = 0;
        while i < s.len()
            invariant
                0 <= i <= s@.len(),
                n == count_of(s@.take(i as int), name),
                n <= i,
            decreases s@.len() - i,
        {
            assert(s@.take(i as int + 1).drop_last() =~= s@.take(i as int));
            if s[i] == name {
                n = n + 1;
            }
            i = i + 1;
        }
        assert(s@.take(s@.len() as int) =~= s@);
        n
    }

    /// Drops the item picked up last, if any.
    pub fn drop_item(&mut self) -> (r: Option<u32>)
        ensures
            old(self).content@.len() == 0 ==> r is None && final(self).content@ == old(self).content@,
            old(self).content@.len() > 0 ==> r == Some(old(self).content@.last())
                && final(self).content@ == old(self).content@.drop_last(),
    {
        self.content.pop()
    }
}

} // verus!
