//! Cursors: values that hand out one item at each call of `next`, until
//! none is left.

use vstd::prelude::*;

verus! {

/// A cursor over a slice, which hands out its elements in order.
pub struct Iter<'a, T> {
    pub data: &'a [T],
    pub index: usize,
}

impl<'a, T> Iter<'a, T> {
    /// The elements that are still to come.
    pub open spec fn remaining(&self) -> Seq<T> {
        if self.index <= self.data@.len() {
            self.data@.skip(self.index as int)
        } else {
            Seq::empty()
        }
    }

    /// The next element, if one is left. The cursor then stands behind it.
    pub fn next(&mut self) -> (item: Option<&'a T>)
        ensures
            final(self).data == old(self).data,
            match item {
                Some(element) => {
                    &&& old(self).remaining().len() > 0
                    &&& *element == old(self).remaining()[0]
                    &&& final(self).index == old(self).index + 1
                    &&& final(self).remaining() == old(self).remaining().drop_first()
                },
                None => old(self).remaining().len() == 0 && final(self).index == old(self).index,
            },
    {
        if self.index < self.data.len() {
            let item = &self.data[self.index];
            self.index += 1;
            assert(self.remaining() == old(self).remaining().drop_first());
            Some(item)
        } else {
            None
        }
    }
}

/// A cursor that counts down to 1.
pub struct Countdown {
    pub count: i32,
}

impl Countdown {
    /// The numbers that are still to come: from `count` down to 1.
    pub open spec fn remaining(&self) -> Seq<i32> {
        if self.count > 0 {
            Seq::new(self.count as nat, |i: int| (self.count - i) as i32)
        } else {
            Seq::empty()
        }
    }

    /// The next number, if the count has not reached zero. The count then
    /// is one less.
    pub fn next(&mut self) -> (item: Option<i32>)
        ensures
            match item {
                Some(number) => {
                    &&& old(self).count > 0
                    &&& number == old(self).count
                    &&& final(self).count == old(self).count - 1
                    &&& old(self).remaining() == seq![number] + final(self).remaining()
                },
                None => old(self).count <= 0 && final(self).count == old(self).count,
            },
    {
        if self.count > 0 {
            let current = self.count;
            self.count -= 1;
            assert(old(self).remaining() =~= seq![current] + self.remaining());
            Some(current)
        } else {
            None
        }
    }
}

} // verus!
