//! The source of random draws: scripted values first, entropy once they run out.

use vstd::prelude::*;

verus! {

/// Hands out 64-bit draws. A source made by [`RandomSource::scripted`] replays
/// its script before it turns to entropy; one made by [`RandomSource::entropy`]
/// has no script.
pub struct RandomSource {
    script: Vec<u64>,
    used: usize,
}

/// What is left of `pending` once `count` draws were taken from it.
pub open spec fn rest_after(pending: Seq<u64>, count: nat) -> Seq<u64> {
    if count <= pending.len() {
        pending.skip(count as int)
    } else {
        Seq::empty()
    }
}

/// A source whose scripted values were `before` may hand out `taken`, in this
/// order, and is then left with `after`: each draw that the script covers is
/// the scripted value, and the others are unconstrained.
pub open spec fn yields(before: Seq<u64>, after: Seq<u64>, taken: Seq<u64>) -> bool {
    &&& after == rest_after(before, taken.len())
    &&& forall|k: int| 0 <= k < taken.len() && k < before.len() ==> taken[k] == before[k]
}

/// One more draw extends what a source has yielded.
pub proof fn lemma_yields_push(
    start: Seq<u64>,
    middle: Seq<u64>,
    end: Seq<u64>,
    taken: Seq<u64>,
    draw: u64,
)
    requires
        yields(start, middle, taken),
        yields(middle, end, seq![draw]),
    ensures
        yields(start, end, taken.push(draw)),
{
    let n = taken.len() as int;
    if n < start.len() {
        assert(middle == start.skip(n));
        assert(middle[0] == start[n]);
        assert(end == middle.skip(1));
        assert(end =~= start.skip(n + 1));
    } else {
        assert(middle.len() == 0);
        assert(end =~= rest_after(start, (n + 1) as nat));
    }
}

/// What a source yields in two stretches, it yields in one.
pub proof fn lemma_yields_append(
    start: Seq<u64>,
    middle: Seq<u64>,
    end: Seq<u64>,
    taken: Seq<u64>,
    more: Seq<u64>,
)
    requires
        yields(start, middle, taken),
        yields(middle, end, more),
    ensures
        yields(start, end, taken + more),
{
    let all = taken + more;
    let n = taken.len() as int;
    if n <= start.len() {
        if more.len() <= middle.len() {
            assert(end =~= start.skip(n + more.len()));
        }
    } else {
        assert(end =~= Seq::<u64>::empty());
    }
    assert forall|k: int| 0 <= k < all.len() && k < start.len() implies all[k] == start[k] by {
        if k >= n {
            assert(all[k] == more[k - n]);
            assert(middle[k - n] == start[k]);
        }
    }
}

/// Taking nothing leaves a source as it was.
pub proof fn lemma_yields_nothing(pending: Seq<u64>)
    ensures
        yields(pending, pending, Seq::empty()),
{
    assert(pending.skip(0) =~= pending);
}

/// Draws a `u64` with `rand::random`. The value depends on chance, so nothing
/// is claimed about it.
#[verifier::external_body]
fn entropy_u64() -> u64 {
    rand::random::<u64>()
}

impl RandomSource {
    /// The scripted values that have not been drawn yet.
    pub closed spec fn pending(&self) -> Seq<u64> {
        if self.used <= self.script.len() {
            self.script@.skip(self.used as int)
        } else {
            Seq::empty()
        }
    }

    /// A source that draws from entropy alone.
    pub fn entropy() -> (source: RandomSource)
        ensures
            source.pending() == Seq::<u64>::empty(),
    {
        let source = RandomSource { script: Vec::new(), used: 0 };
        assert(source.script@.skip(0) =~= Seq::<u64>::empty());
        source
    }

    /// A source that first replays `script`, in order.
    pub fn scripted(script: Vec<u64>) -> (source: RandomSource)
        ensures
            source.pending() == script@,
    {
        let source = RandomSource { script, used: 0 };
        assert(source.script@.skip(0) =~= source.script@);
        source
    }

    /// The next draw: the first pending scripted value if there is one, a
    /// value from entropy otherwise.
    pub fn draw(&mut self) -> (value: u64)
        ensures
            yields(old(self).pending(), final(self).pending(), seq![value]),
    {
        if self.used < self.script.len() {
            let value: u64 = self.script[self.used];
            self.used = self.used + 1;
            assert(self.pending() =~= old(self).pending().skip(1));
            assert(value == old(self).pending()[0]);
            value
        } else {
            assert(self.pending() =~= Seq::<u64>::empty());
            entropy_u64()
        }
    }
}

} // verus!
