//! The active-grain mixer that runs inside the audio callback: it turns
//! queued grain buffers into active grains, sums their next samples into
//! interleaved output frames, and retires the grains it has consumed.

use vstd::prelude::*;

verus! {

use vstd::math::abs;
use crate::fixed::{sat32, saturate_i32};
use crate::channel::try_recv_grain;

/// Most grains taken from the queue in one callback pass.
pub const DRAIN_BUDGET: usize = 4096;

/// One playing grain: its samples and how far it has been consumed.
pub struct ActiveGrain {
    pub samples: Vec<i32>,
    pub position: usize,
}

/// The sample a grain contributes `off` frames from now: its sample at
/// `position + off`, or zero once it has run out.
pub open spec fn grain_at(g: ActiveGrain, off: int) -> int {
    if g.position + off < g.samples@.len() {
        g.samples@[g.position + off] as int
    } else {
        0
    }
}

/// The mixed value of one output frame `off` frames from now: the sum of
/// every active grain's contribution.
pub open spec fn frame_mix(grains: Seq<ActiveGrain>, off: int) -> int
    decreases grains.len(),
{
    if grains.len() == 0 {
        0
    } else {
        frame_mix(grains.drop_last(), off) + grain_at(grains.last(), off)
    }
}

/// Where a grain's position stands after consuming `k` frames.
pub open spec fn advanced_pos(pos: int, len: int, k: int) -> int {
    if pos >= len {
        pos
    } else if pos + k <= len {
        pos + k
    } else {
        len
    }
}

/// The grains that are still playing, in order.
pub open spec fn retained(grains: Seq<ActiveGrain>) -> Seq<ActiveGrain> {
    grains.filter(|g: ActiveGrain| !g.is_finished_spec())
}

impl ActiveGrain {
    /// A grain that has consumed all of its samples.
    pub open spec fn is_finished_spec(&self) -> bool {
        self.position >= self.samples@.len()
    }

    /// Wrap a freshly received grain buffer, ready to play from its
    /// first sample.
    pub fn new(samples: Vec<i32>) -> (g: ActiveGrain)
        ensures
            g.samples@ == samples@,
            g.position == 0,
    {
        ActiveGrain { samples, position: 0 }
    }

    /// Whether the grain has been consumed in full.
    pub fn is_finished(&self) -> (b: bool)
        ensures
            b == self.is_finished_spec(),
    {
        self.position >= self.samples.len()
    }

    /// The grain's next sample; zero, and no movement, once finished.
    pub fn next_sample(&mut self) -> (s: i32)
        ensures
            !old(self).is_finished_spec() ==> {
                &&& s == old(self).samples@[old(self).position as int]
                &&& final(self).position == old(self).position + 1
            },
            old(self).is_finished_spec() ==> {
                &&& s == 0
                &&& final(self).position == old(self).position
            },
            final(self).samples@ == old(self).samples@,
    {
        if self.position >= self.samples.len() {
            0
        } else {
            let s = self.samples[self.position];
            self.position = self.position + 1;
            s
        }
    }
}

/// Move every waiting grain of the queue, up to the drain budget, onto
/// the active list.
pub fn drain_incoming(
    receiver: &crossbeam_channel::Receiver<Vec<i32>>,
    active: &mut Vec<ActiveGrain>,
)
    ensures
        old(active)@.len() <= final(active)@.len() <= old(active)@.len() + DRAIN_BUDGET,
        forall|k: int| 0 <= k < old(active)@.len() ==> final(active)@[k] == old(active)@[k],
        forall|k: int|
            old(active)@.len() <= k < final(active)@.len() ==> #[trigger] final(active)@[k].position
                == 0,
{
    let mut budget: usize = DRAIN_BUDGET;
    while budget > 0
        invariant
            old(active)@.len() <= active@.len() <= old(active)@.len() + DRAIN_BUDGET - budget,
            budget <= DRAIN_BUDGET,
            forall|k: int| 0 <= k < old(active)@.len() ==> active@[k] == old(active)@[k],
            forall|k: int|
                old(active)@.len() <= k < active@.len() ==> #[trigger] active@[k].position == 0,
        decreases budget,
    {
        match try_recv_grain(receiver) {
            Some(grain) => {
                active.push(ActiveGrain::new(grain));
            },
            None => {
                return ;
            },
        }
        budget = budget - 1;
    }
}

/// Mix `frames` output frames from the active grains: each frame is the
/// saturated sum of every grain's next sample, copied to all channels;
/// every grain then stands `frames` samples further on.
pub fn mix_block(active: &mut Vec<ActiveGrain>, frames: usize, channels: usize) -> (out: Vec<i32>)
    requires
        1 <= channels,
        (frames as int) * (channels as int) <= 0x1000_0000,
        old(active)@.len() <= 0x7FFF_FFFF,
    ensures
        out@.len() == (frames as int) * (channels as int),
        forall|t: int|
            0 <= t < out@.len() ==> #[trigger] out@[t] == sat32(
                frame_mix(old(active)@, t / (channels as int)),
            ),
        final(active)@.len() == old(active)@.len(),
        forall|k: int|
            0 <= k < old(active)@.len() ==> {
                &&& (#[trigger] final(active)@[k]).samples@ == old(active)@[k].samples@
                &&& final(active)@[k].position == advanced_pos(
                    old(active)@[k].position as int,
                    old(active)@[k].samples@.len() as int,
                    frames as int,
                )
            },
{
    let ghost grains0 = active@;
    let n = active.len();
    let mut out: Vec<i32> = Vec::new();
    let mut f: usize = 0;
    while f < frames
        invariant
            f <= frames,
            1 <= channels,
            (frames as int) * (channels as int) <= 0x1000_0000,
            active@ == grains0,
            grains0.len() == n <= 0x7FFF_FFFF,
            out@.len() == (f as int) * (channels as int),
            forall|t: int|
                0 <= t < out@.len() ==> #[trigger] out@[t] == sat32(
                    frame_mix(grains0, t / (channels as int)),
                ),
        decreases frames - f,
    {
        let mut mix: i64 = 0;
        let mut gi: usize = 0;
        while gi < n
            invariant
                gi <= n,
                active@ == grains0,
                grains0.len() == n <= 0x7FFF_FFFF,
                mix == frame_mix(grains0.take(gi as int), f as int),
                abs(mix as int) <= (gi as int) * 0x8000_0000,
            decreases n - gi,
        {
            let g = &active[gi];
            let s: i32 = if g.position < g.samples.len() {
                let off = g.samples.len() - g.position;
                if (f as u64) < (off as u64) {
                    g.samples[g.position + f]
                } else {
                    0
                }
            } else {
                0
            };
            proof {
                assert(s as int == grain_at(grains0[gi as int], f as int));
                assert(grains0.take(gi + 1).drop_last() =~= grains0.take(gi as int));
                assert(grains0.take(gi + 1).last() == grains0[gi as int]);
                assert((gi + 1) * 0x8000_0000 == gi * 0x8000_0000int + 0x8000_0000) by (nonlinear_arith);
            }
            mix = mix + s as i64;
            gi = gi + 1;
        }
        proof {
            assert(grains0.take(n as int) =~= grains0);
            assert((f as int) * channels + channels <= (frames as int) * channels)
                by (nonlinear_arith)
                requires
                    (f as int) < frames as int,
                    channels >= 1,
            ;
        }
        let mixed: i32 = saturate_i32(mix);
        let mut c: usize = 0;
        while c < channels
            invariant
                c <= channels,
                f < frames,
                1 <= channels,
                mixed as int == sat32(frame_mix(grains0, f as int)),
                (f as int) * channels + channels <= (frames as int) * channels,
                (frames as int) * (channels as int) <= 0x1000_0000,
                out@.len() == (f as int) * (channels as int) + c,
                forall|t: int|
                    0 <= t < out@.len() ==> #[trigger] out@[t] == sat32(
                        frame_mix(grains0, t / (channels as int)),
                    ),
            decreases channels - c,
        {
            proof {
                let t = (f as int) * (channels as int) + c;
                vstd::arithmetic::div_mod::lemma_fundamental_div_mod_converse(
                    t,
                    channels as int,
                    f as int,
                    c as int,
                );
            }
            out.push(mixed);
            c = c + 1;
        }
        f = f + 1;
        proof {
            assert((f as int) * channels == (f - 1) * channels + channels) by (nonlinear_arith);
        }
    }

    // Advance every grain past the frames it has just contributed.
    let mut gi: usize = 0;
    while gi < n
        invariant
            gi <= n,
            active@.len() == grains0.len() == n,
            forall|k: int| gi <= k < n ==> active@[k] == grains0[k],
            forall|k: int|
                0 <= k < gi ==> {
                    &&& (#[trigger] active@[k]).samples@ == grains0[k].samples@
                    &&& active@[k].position == advanced_pos(
                        grains0[k].position as int,
                        grains0[k].samples@.len() as int,
                        frames as int,
                    )
                },
        decreases n - gi,
    {
        let len = active[gi].samples.len();
        let pos = active[gi].position;
        let newpos: usize = if pos >= len {
            pos
        } else if frames < len - pos {
            pos + frames
        } else {
            len
        };
        active[gi].position = newpos;
        gi = gi + 1;
    }
    out
}

/// Drop every finished grain from the active list, keeping the order of
/// the rest.
pub fn retire_finished(active: &mut Vec<ActiveGrain>)
    ensures
        final(active)@ == retained(old(active)@),
{
    let ghost orig = active@;
    let mut rev: Vec<ActiveGrain> = Vec::new();
    proof {
        assert(active@ =~= orig.take(active@.len() as int));
        assert(rev@ =~= orig.skip(active@.len() as int).reverse());
    }
    while active.len() > 0
        invariant
            active@.len() <= orig.len(),
            active@ =~= orig.take(active@.len() as int),
            rev@ =~= orig.skip(active@.len() as int).reverse(),
        decreases active@.len(),
    {
        let g = match active.pop() {
            Some(g) => g,
            None => {
                return ;  // unreachable: the loop condition holds
            },
        };
        let ghost m = active@.len() as int;
        proof {
            assert(g == orig.take(m + 1)[m]);
            assert(g == orig[m]);
            assert(active@ =~= orig.take(m));
            assert(rev@.push(g) =~= orig.skip(m).reverse());
        }
        rev.push(g);
    }
    let ghost total = orig.len() as int;
    proof {
        assert(active@ =~= retained(orig.take(total - rev@.len()))) by {
            reveal(Seq::filter);
            assert(orig.take(0) =~= Seq::<ActiveGrain>::empty());
        }
    }
    while rev.len() > 0
        invariant
            rev@.len() <= total == orig.len(),
            rev@ =~= orig.skip(total - rev@.len()).reverse(),
            active@ =~= retained(orig.take(total - rev@.len())),
        decreases rev@.len(),
    {
        let ghost rlen = rev@.len() as int;
        let ghost m = total - rlen;
        let g = match rev.pop() {
            Some(g) => g,
            None => {
                return ;  // unreachable: the loop condition holds
            },
        };
        proof {
            assert(orig.skip(m).reverse().len() == rlen);
            assert(g == orig.skip(m).reverse()[rlen - 1]);
            assert(orig.skip(m).reverse()[rlen - 1] == orig.skip(m)[0]);
            assert(orig.skip(m)[0] == orig[m]);
            assert(rev@ =~= orig.skip(m + 1).reverse());
        }
        let keep = !g.is_finished();
        proof {
            reveal(Seq::filter);
            assert(orig.take(m + 1).drop_last() =~= orig.take(m));
            assert(orig.take(m + 1).last() == orig[m]);
            if keep {
                assert(active@.push(g) =~= retained(orig.take(m)).push(g));
                assert(retained(orig.take(m + 1)) =~= retained(orig.take(m)).push(g));
            } else {
                assert(retained(orig.take(m + 1)) =~= retained(orig.take(m)));
            }
        }
        if keep {
            active.push(g);
        }
    }
    proof {
        assert(orig.take(total) =~= orig);
        assert(active@ =~= retained(orig));
    }
}

} // verus!
