use vstd::prelude::*;

verus! {

/// A counter that a background task advances once a second.
pub struct Contador {
    pub cont: i32,
}

impl Contador {
    /// A counter at zero.
    pub fn new() -> (res: Self)
        ensures
            res.cont == 0,
    {
        Contador { cont: 0 }
    }

    /// Advances the counter by one.
    pub fn increment(&mut self)
        requires
            old(self).cont < i32::MAX,
        ensures
            final(self).cont == old(self).cont + 1,
    {
        self.cont = self.cont + 1;
    }
}

/// Each value follows the one before by one `increment`.
pub open spec fn counts_by_one(values: Seq<i32>) -> bool {
    forall|i: int| 0 < i < values.len() ==> #[trigger] values[i] == values[i - 1] + 1
}

/// A counter advanced once per round counts up by exactly one per round:
/// when every value follows the one before by one increment, the value after
/// `k` rounds is the first value plus `k`.
pub proof fn law_counts_up_by_one(values: Seq<i32>)
    requires
        counts_by_one(values),
    ensures
        forall|k: int| 0 <= k < values.len() ==> #[trigger] values[k] == values[0] + k,
    decreases values.len(),
{
    if values.len() > 1 {
        let t = values.drop_last();
        assert forall|i: int| 0 < i < t.len() implies #[trigger] t[i] == t[i - 1] + 1 by {
            assert(t[i] == values[i]);
            assert(t[i - 1] == values[i - 1]);
        }
        law_counts_up_by_one(t);
        assert forall|k: int| 0 <= k < values.len() implies #[trigger] values[k] == values[0] + k by {
            if k < t.len() {
                assert(t[k] == values[k]);
            } else {
                assert(values[k] == values[k - 1] + 1);
                assert(t[k - 1] == values[k - 1]);
            }
        }
    }
}

} // verus!
