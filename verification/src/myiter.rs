//! A forward consuming iterator over a container: each step removes and
//! returns the first remaining element until the source is drained.

use vstd::prelude::*;

use crate::MyVec;

verus! {

/// A single-pass producer of values.  `remaining` is the sequence of values
/// still to be produced, front first; `next` hands out the front value and
/// keeps signalling exhaustion once `remaining` is empty.
pub trait MyIterator {
    type Item;

    /// The values still to be produced, front first.
    spec fn remaining(&self) -> Seq<Self::Item>;

    fn next(&mut self) -> (r: Option<Self::Item>)
        ensures
            old(self).remaining().len() == 0 ==> r is None
                && final(self).remaining() == old(self).remaining(),
            old(self).remaining().len() > 0 ==> r == Some(old(self).remaining()[0])
                && final(self).remaining() == old(self).remaining().drop_first(),
    ;
}

/// Consumes a container front to back through its `remove` operation.
pub struct MyIntoIter<T>(pub MyVec<T>);

impl<T> MyIterator for MyIntoIter<T> {
    type Item = T;

    open spec fn remaining(&self) -> Seq<T> {
        self.0@
    }

    fn next(&mut self) -> (r: Option<T>) {
        if self.0.len() == 0 {
            return None;
        }
        let front = self.0.remove(0);
        proof {
            assert(self.0@ =~= old(self).0@.drop_first());
        }
        Some(front)
    }
}

} // verus!
