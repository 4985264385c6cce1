//! Numeric repetition bounds: a half-open or closed range of `u64` values,
//! with the exact sequence of values it stands for.

use vstd::prelude::*;

verus! {

/// The bounds of a numeric repetition: `lo..hi` or `lo..=hi`.
#[derive(Debug, Clone, Copy)]
pub enum Bounds {
    Exclusive(u64, u64),
    Inclusive(u64, u64),
}

impl Bounds {
    /// The values the bounds stand for, in increasing order.
    pub open spec fn spec_values(&self) -> Seq<u64> {
        match self {
            Bounds::Exclusive(lo, hi) => if *lo <= *hi {
                Seq::new((*hi - *lo) as nat, |k: int| (*lo + k) as u64)
            } else {
                Seq::empty()
            },
            Bounds::Inclusive(lo, hi) => if *lo <= *hi {
                Seq::new((*hi - *lo + 1) as nat, |k: int| (*lo + k) as u64)
            } else {
                Seq::empty()
            },
        }
    }

    /// Materializes the values of the bounds, smallest first.
    pub fn values(&self) -> (r: Vec<u64>)
        requires
            self.spec_values().len() <= usize::MAX,
        ensures
            r@ == self.spec_values(),
    {
        let (lo, n): (u64, usize) = match self {
            Bounds::Exclusive(lo, hi) => {
                if *lo <= *hi {
                    (*lo, (*hi - *lo) as usize)
                } else {
                    (*lo, 0)
                }
            },
            Bounds::Inclusive(lo, hi) => {
                if *lo <= *hi {
                    (*lo, ((*hi - *lo) as usize) + 1)
                } else {
                    (*lo, 0)
                }
            },
        };
        let mut r: Vec<u64> = Vec::new();
        let mut k: usize = 0;
        while k < n
            invariant
                k <= n,
                r@.len() == k,
                n == self.spec_values().len(),
                forall|t: int| 0 <= t < k ==> #[trigger] r@[t] == self.spec_values()[t],
                n > 0 ==> lo == (match self {
                    Bounds::Exclusive(l, _) => *l,
                    Bounds::Inclusive(l, _) => *l,
                }),
            decreases n - k,
        {
            r.push(lo + k as u64);
            k = k + 1;
        }
        proof {
            assert(r@ =~= self.spec_values());
        }
        r
    }
}

} // verus!
