//! Keeping some of the items of a vector.

use vstd::prelude::*;

verus! {

/// Drops the items that `keep` rejects; the others stay in order.
pub(crate) fn retain<T, F: Fn(&T) -> bool>(
    items: &mut Vec<T>,
    keep: F,
    Ghost(kept): Ghost<spec_fn(T) -> bool>,
)
    requires
        forall|x: &T| #[trigger] keep.requires((x,)),
        forall|x: &T, r: bool| #[trigger] keep.ensures((x,), r) ==> r == kept(*x),
    ensures
        final(items)@ == old(items)@.filter(kept),
{
    let ghost all = items@;
    let mut i: usize = 0;
    let ghost mut seen: int = 0;
    proof {
        reveal(Seq::filter);
        assert(all.take(0).filter(kept) =~= Seq::<T>::empty());
        assert(items@ =~= all.take(0).filter(kept) + all.skip(0));
    }
    while i < items.len()
        invariant
            0 <= seen <= all.len(),
            i == all.take(seen).filter(kept).len(),
            items@ == all.take(seen).filter(kept) + all.skip(seen),
            forall|x: &T| #[trigger] keep.requires((x,)),
            forall|x: &T, r: bool| #[trigger] keep.ensures((x,), r) ==> r == kept(*x),
        decreases all.len() - seen,
    {
        let ghost front = all.take(seen).filter(kept);
        proof {
            assert(items@[i as int] == all.skip(seen)[0]);
            assert(all.skip(seen)[0] == all[seen]);
            reveal(Seq::filter);
            assert(all.take(seen + 1).drop_last() =~= all.take(seen));
            assert(all.take(seen + 1).last() == all[seen]);
        }
        if keep(&items[i]) {
            assert(items@ =~= front.push(all[seen]) + all.skip(seen + 1));
            i += 1;
        } else {
            items.remove(i);
            assert(items@ =~= front + all.skip(seen + 1));
        }
        proof {
            seen = seen + 1;
        }
    }
    proof {
        assert(seen == all.len());
        assert(all.take(seen) =~= all);
        assert(items@ =~= all.filter(kept));
    }
}

} // verus!
