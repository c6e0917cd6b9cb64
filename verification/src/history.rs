//! Price history: the last samples of each asset.

use vstd::prelude::*;

use crate::config::Screen;
use crate::double::Double;

verus! {

pub const LEN: usize = 60;

/// Circular price history buffer: one slot per asset, 60 samples each.
pub struct PriceHistory {
    prices: [[Double; 60]; 5],
    heads: [usize; 5],
    counts: [usize; 5],
}

/// The last `n` of `s`, or all of them where there are fewer.
pub open spec fn newest(s: Seq<Double>, n: int) -> Seq<Double> {
    if s.len() <= n {
        s
    } else {
        s.skip(s.len() - n)
    }
}

/// What counts as a price: anything that is not zero or below.
pub open spec fn is_price(p: Double) -> bool {
    !(p.below_zero() || p.equals_zero())
}

impl View for PriceHistory {
    /// The samples of each asset, oldest first.
    type V = Seq<Seq<Double>>;

    closed spec fn view(&self) -> Seq<Seq<Double>> {
        Seq::new(5, |i: int| ring(self.prices[i]@, self.heads[i] as int, self.counts[i] as int))
    }
}

/// The `count` samples before `head`, in the order they came.
spec fn ring(slots: Seq<Double>, head: int, count: int) -> Seq<Double> {
    Seq::new(count as nat, |j: int| slots[(head + 60 - count + j) % 60])
}

proof fn lemma_wrap(h: int, count: int, j: int)
    requires
        0 <= h < 60,
        0 <= j < count <= 60,
    ensures
        ((h + 60 - count) % 60 + j) % 60 == (h + 60 - count + j) % 60,
{
}

impl PriceHistory {
    pub closed spec fn valid(self) -> bool {
        &&& forall|i: int| 0 <= i < 5 ==> #[trigger] self.heads[i] < 60
        &&& forall|i: int| 0 <= i < 5 ==> #[trigger] self.counts[i] <= 60
    }

    pub fn new() -> (r: Self)
        ensures
            r.valid(),
            r@ == Seq::new(5, |i: int| Seq::<Double>::empty()),
    {
        let r = PriceHistory {
            prices: [[Double::zero(); 60]; 5],
            heads: [0; 5],
            counts: [0; 5],
        };
        proof {
            assert forall|i: int| 0 <= i < 5 implies #[trigger] r@[i] == Seq::<Double>::empty() by {
                assert(r@[i] =~= Seq::<Double>::empty());
            }
            assert(r@ =~= Seq::new(5, |i: int| Seq::<Double>::empty()));
        }
        r
    }

    /// Adds a sample, unless it is zero or below. Only the newest 60 are kept.
    pub fn push(&mut self, screen: Screen, price: Double)
        requires
            old(self).valid(),
        ensures
            final(self).valid(),
            final(self)@ == if is_price(price) {
                old(self)@.update(
                    screen.number(),
                    newest(old(self)@[screen.number()].push(price), LEN as int),
                )
            } else {
                old(self)@
            },
    {
        if price.at_most_zero() {
            return ;
        }
        let i: usize = screen.to_u8() as usize;
        let head: usize = self.heads[i];
        let ghost before = self.prices[i as int]@;
        let ghost count = self.counts[i as int] as int;
        self.prices[i][head] = price;
        self.heads[i] = (head + 1) % LEN;
        if self.counts[i] < LEN {
            self.counts[i] = self.counts[i] + 1;
        }
        proof {
            let want = newest(old(self)@[i as int].push(price), 60);
            let now = self@[i as int];
            assert(now.len() == want.len());
            assert forall|j: int| 0 <= j < now.len() implies #[trigger] now[j] == want[j] by {
                let h = head as int;
                let n = now.len();
                assert(now[j] == self.prices[i as int]@[((h + 1) % 60 + 60 - n + j) % 60]);
                if j == n - 1 {
                    assert(((h + 1) % 60 + 59) % 60 == h);
                } else {
                    assert(((h + 1) % 60 + 60 - n + j) % 60 != h);
                }
            }
            assert(now =~= want);
            assert(self@ =~= old(self)@.update(i as int, want));
        }
    }

    /// Fill `out` with the most recent samples in chronological order (oldest first). Returns the
    /// number of samples written (at most `out.len()`).
    pub fn get(&self, screen: Screen, out: &mut [Double]) -> (count: usize)
        requires
            self.valid(),
        ensures
            final(out)@.len() == old(out)@.len(),
            count == newest(self@[screen.number()], old(out)@.len() as int).len(),
            final(out)@ == newest(self@[screen.number()], old(out)@.len() as int) + old(
                out,
            )@.skip(count as int),
    {
        let i: usize = screen.to_u8() as usize;
        let held: usize = self.counts[i];
        let room: usize = out.len();
        let count: usize = if held < room {
            held
        } else {
            room
        };
        let start: usize = (self.heads[i] + LEN - count) % LEN;
        let ghost all = self@[i as int];
        let ghost want = newest(all, room as int);
        let mut j: usize = 0;
        while j < count
            invariant
                j <= count,
                count <= held,
                count <= 60,
                i < 5,
                self.valid(),
                held == self.counts[i as int],
                start == (self.heads[i as int] + 60 - count) % 60,
                all == ring(
                    self.prices[i as int]@,
                    self.heads[i as int] as int,
                    self.counts[i as int] as int,
                ),
                want.len() == count,
                want == newest(all, room as int),
                out@.len() == old(out)@.len(),
                room == out@.len(),
                count <= room,
                forall|k: int| 0 <= k < j ==> #[trigger] out@[k] == want[k],
                forall|k: int| j <= k < room ==> #[trigger] out@[k] == old(out)@[k],
            decreases count - j,
        {
            let from: usize = (start + j) % LEN;
            let v: Double = self.prices[i][from];
            proof {
                let h = self.heads[i as int] as int;
                assert(all.len() == held);
                assert(want[j as int] == all[held - count + j]);
                assert(all[held - count + j] == self.prices[i as int]@[(h + 60 - held + (held
                    - count + j)) % 60]);
                lemma_wrap(h, count as int, j as int);
                assert(h + 60 - held + (held - count + j) == h + 60 - count + j);
            }
            out[j] = v;
            j += 1;
        }
        assert(out@ =~= want + old(out)@.skip(count as int));
        count
    }
}

/// A sample that was just added is the last one that comes out, behind the newest of those that
/// were there.
pub proof fn law_last_pushed_comes_last(s: Seq<Double>, p: Double, n: int)
    requires
        0 < n <= LEN,
    ensures
        newest(newest(s.push(p), LEN as int), n).last() == p,
        newest(newest(s.push(p), LEN as int), n) == newest(s, n - 1).push(p),
{
    assert(newest(newest(s.push(p), LEN as int), n) =~= newest(s, n - 1).push(p));
}

} // verus!
