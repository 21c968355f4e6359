use vstd::prelude::*;

verus! {

/// Bookmark into the table's insertion-ordinal sequence: the next ordinal that
/// has not been seen yet. It never moves backward.
#[derive(Clone, Copy, Default)]
pub struct Cursor(pub u64);

/// The position after consuming `ordinal` from position `c`.
pub open spec fn consume_spec(c: u64, ordinal: u64) -> u64 {
    if c > ordinal + 1 {
        c
    } else {
        (ordinal + 1) as u64
    }
}

/// The position after consuming each ordinal of `ordinals` in turn.
pub open spec fn consume_all(c: u64, ordinals: Seq<u64>) -> u64
    decreases ordinals.len(),
{
    if ordinals.len() == 0 {
        c
    } else {
        consume_spec(consume_all(c, ordinals.drop_last()), ordinals.last())
    }
}

/// Consuming any sequence of ordinals never moves the cursor backward, and
/// each step lands on the larger of the previous position and the ordinal
/// plus one.
pub proof fn lemma_cursor_monotonic(c: u64, ordinals: Seq<u64>)
    requires
        forall|i: int| 0 <= i < ordinals.len() ==> #[trigger] ordinals[i] < u64::MAX,
    ensures
        consume_all(c, ordinals) >= c,
        forall|k: int| 0 < k <= ordinals.len() ==> {
            let before = #[trigger] consume_all(c, ordinals.subrange(0, k - 1));
            let after = consume_all(c, ordinals.subrange(0, k));
            &&& after >= before
            &&& after == if before > ordinals[k - 1] + 1 { before as int } else { ordinals[k - 1] + 1 }
        },
    decreases ordinals.len(),
{
    if ordinals.len() > 0 {
        let init = ordinals.drop_last();
        lemma_cursor_monotonic(c, init);
        assert forall|k: int| 0 < k <= ordinals.len() implies {
            let before = #[trigger] consume_all(c, ordinals.subrange(0, k - 1));
            let after = consume_all(c, ordinals.subrange(0, k));
            &&& after >= before
            &&& after == if before > ordinals[k - 1] + 1 { before as int } else { ordinals[k - 1] + 1 }
        } by {
            assert(ordinals.subrange(0, k).drop_last() =~= ordinals.subrange(0, k - 1));
            assert(ordinals.subrange(0, k).last() == ordinals[k - 1]);
        }
        assert(ordinals.subrange(0, ordinals.len() as int) =~= ordinals);
        assert(ordinals.subrange(0, ordinals.len() - 1) =~= init);
    }
}

impl Cursor {
    /// The cursor's current position.
    pub fn ordinal(&self) -> (r: u64)
        ensures
            r == self.0,
    {
        self.0
    }

    /// Advances the cursor past `ordinal`: the new position is the larger of
    /// the old one and `ordinal + 1`.
    pub fn consume(&mut self, ordinal: u64)
        requires
            ordinal < u64::MAX,
        ensures
            final(self).0 == consume_spec(old(self).0, ordinal),
    {
        let next: u64 = ordinal + 1;
        if self.0 < next {
            self.0 = next;
        }
    }
}

} // verus!
