use vstd::prelude::*;

verus! {

/// The samples of channel `c` inside `data`, when `data` interleaves `n`
/// channels: the elements at indices `c, c + n, c + 2n, ...`, kept in their
/// original order.
pub open spec fn channel_of_interleaved<S>(data: Seq<S>, n: int, c: int) -> Seq<S>
    recommends
        1 <= n,
        0 <= c < n,
{
    Seq::new((data.len() as int / n) as nat, |k: int| data[k * n + c])
}

/// One growable sample sequence per channel. Whole frames are appended by
/// de-interleaving, so all channels hold the same number of samples at every
/// observation point.
pub struct ChannelSet<S> {
    /// The per-channel sequences, channel 0 first.
    pub data: Vec<Vec<S>>,
}

impl<S> View for ChannelSet<S> {
    type V = Seq<Seq<S>>;

    open spec fn view(&self) -> Seq<Seq<S>> {
        self.data@.map_values(|v: Vec<S>| v@)
    }
}

impl<S> ChannelSet<S> {
    /// Every channel holds as many samples as channel 0.
    pub open spec fn wf(self) -> bool {
        forall|c: int| 0 <= c < self@.len() ==> (#[trigger] self@[c]).len() == self@[0].len()
    }

    /// The number of samples each channel holds.
    pub open spec fn channel_len(self) -> nat
        recommends
            self@.len() >= 1,
    {
        self@[0].len()
    }

    /// A set of `n` channels, each empty.
    pub fn with_channels(n: usize) -> (r: Self)
        ensures
            r@.len() == n,
            forall|c: int| 0 <= c < n ==> #[trigger] r@[c] == Seq::<S>::empty(),
            r.wf(),
    {
        let mut data: Vec<Vec<S>> = Vec::new();
        for i in 0..n
            invariant
                data@.len() == i,
                forall|c: int| 0 <= c < i ==> (#[trigger] data@[c])@ == Seq::<S>::empty(),
        {
            data.push(Vec::new());
        }
        let r = ChannelSet { data };
        proof {
            assert(forall|c: int| 0 <= c < n ==> #[trigger] r@[c] == r.data@[c]@);
        }
        r
    }

    /// Adopts per-channel data as it stands, provided it is a valid channel
    /// set: at least one channel, all of one length.
    pub fn from_data(data: Vec<Vec<S>>) -> (r: Option<Self>)
        ensures
            r is Some <==> (data@.len() >= 1 && forall|c: int|
                0 <= c < data@.len() ==> (#[trigger] data@[c])@.len() == data@[0]@.len()),
            r matches Some(cs) ==> cs@.len() == data@.len() && forall|c: int|
                0 <= c < data@.len() ==> #[trigger] cs@[c] == data@[c]@,
    {
        if data.len() == 0 {
            return None;
        }
        let first_len = data[0].len();
        for c in 1..data.len()
            invariant
                data@.len() >= 1,
                first_len == data@[0]@.len(),
                forall|i: int| 0 <= i < c ==> (#[trigger] data@[i])@.len() == data@[0]@.len(),
        {
            if data[c].len() != first_len {
                return None;
            }
        }
        let r = ChannelSet { data };
        proof {
            assert(forall|c: int| 0 <= c < r.data@.len() ==> #[trigger] r@[c] == r.data@[c]@);
        }
        Some(r)
    }

    /// Gives the per-channel data back, channel 0 first.
    pub fn into_data(self) -> (d: Vec<Vec<S>>)
        ensures
            d@.len() == self@.len(),
            forall|c: int| 0 <= c < self@.len() ==> (#[trigger] d@[c])@ == self@[c],
    {
        self.data
    }

    /// The number of channels.
    pub fn channel_count(&self) -> (n: usize)
        ensures
            n == self@.len(),
    {
        self.data.len()
    }

    /// The number of samples each channel holds.
    pub fn samples_per_channel(&self) -> (l: usize)
        requires
            self@.len() >= 1,
            self.wf(),
        ensures
            l == self.channel_len(),
    {
        self.data[0].len()
    }
}

impl<S: Copy> ChannelSet<S> {
    /// Appends one whole frame of interleaved samples: sample `i` of the frame
    /// goes to channel `i % n`, so channel `c` receives the samples at indices
    /// `c, c + n, c + 2n, ...` in their original order.
    pub fn push_interleaved(&mut self, samples: &Vec<S>)
        requires
            old(self).wf(),
            old(self)@.len() >= 1,
            samples@.len() % (old(self)@.len() as nat) == 0,
        ensures
            final(self).wf(),
            final(self)@.len() == old(self)@.len(),
            forall|c: int| 0 <= c < old(self)@.len() ==> #[trigger] final(self)@[c]
                == old(self)@[c] + channel_of_interleaved(
                    samples@,
                    old(self)@.len() as int,
                    c,
                ),
    {
        let ghost orig = self@;
        let ghost m = samples@;
        let n = self.data.len();
        let total = samples.len();
        let frames = total / n;
        proof {
            vstd::arithmetic::div_mod::lemma_fundamental_div_mod(m.len() as int, n as int);
            vstd::arithmetic::mul::lemma_mul_is_commutative(n as int, m.len() as int / n as int);
            assert(frames * n == m.len());
        }
        let mut data: Vec<Vec<S>> = Vec::new();
        core::mem::swap(&mut self.data, &mut data);
        let mut rebuilt: Vec<Vec<S>> = Vec::new();
        for c in 0..n
            invariant
                n >= 1,
                frames * n == m.len(),
                frames == m.len() as int / n as int,
                m == samples@,
                m.len() == total,
                orig.len() == n,
                data@.len() == n - c,
                rebuilt@.len() == c,
                forall|i: int| 0 <= i < n - c ==> (#[trigger] data@[i])@ == orig[c + i],
                forall|i: int| 0 <= i < c ==> (#[trigger] rebuilt@[i])@
                    == orig[i] + channel_of_interleaved(m, n as int, i),
        {
            let mut col = data.remove(0);
            proof {
                assert(col@ + channel_of_interleaved(m, n as int, c as int).take(0) =~= col@);
            }
            let mut k: usize = 0;
            while k < frames
                invariant
                    n >= 1,
                    c < n,
                    k <= frames,
                    frames * n == m.len(),
                    frames == m.len() as int / n as int,
                    m == samples@,
                    m.len() == total,
                    col@ == orig[c as int] + channel_of_interleaved(m, n as int, c as int)
                        .take(k as int),
                decreases frames - k,
            {
                proof {
                    assert(k * n + n <= frames * n) by (nonlinear_arith)
                        requires
                            k < frames,
                            n >= 1,
                    ;
                }
                let idx = k * n + c;
                let x = samples[idx];
                col.push(x);
                proof {
                    let full = channel_of_interleaved(m, n as int, c as int);
                    assert(full.len() == m.len() as int / n as int);
                    assert(full[k as int] == m[k * n + c]);
                    assert(col@ =~= orig[c as int] + full.take(k + 1));
                }
                k = k + 1;
            }
            proof {
                let full = channel_of_interleaved(m, n as int, c as int);
                assert(full.take(frames as int) =~= full);
            }
            rebuilt.push(col);
        }
        core::mem::swap(&mut self.data, &mut rebuilt);
        proof {
            assert forall|c: int| 0 <= c < n implies #[trigger] self@[c]
                == orig[c] + channel_of_interleaved(m, n as int, c) by {
                assert(self@[c] == self.data@[c]@);
            }
            assert forall|c: int| 0 <= c < self@.len() implies (#[trigger] self@[c]).len()
                == self@[0].len() by {
                assert(orig[c].len() == orig[0].len());
                assert(channel_of_interleaved(m, n as int, c).len()
                    == channel_of_interleaved(m, n as int, 0).len());
            }
        }
    }

    /// Removes the first `count` samples of every channel, in order, and
    /// returns them as one block, one sample run per channel.
    pub fn drain_front(&mut self, count: usize) -> (block: Vec<Vec<S>>)
        requires
            old(self).wf(),
            old(self)@.len() >= 1,
            count <= old(self).channel_len(),
        ensures
            final(self).wf(),
            final(self)@.len() == old(self)@.len(),
            block@.len() == old(self)@.len(),
            forall|c: int| 0 <= c < old(self)@.len() ==> (#[trigger] block@[c])@
                == old(self)@[c].take(count as int),
            forall|c: int| 0 <= c < old(self)@.len() ==> #[trigger] final(self)@[c]
                == old(self)@[c].skip(count as int),
    {
        let ghost orig = self@;
        let n = self.data.len();
        let mut data: Vec<Vec<S>> = Vec::new();
        core::mem::swap(&mut self.data, &mut data);
        let mut kept: Vec<Vec<S>> = Vec::new();
        let mut block: Vec<Vec<S>> = Vec::new();
        for c in 0..n
            invariant
                n == orig.len(),
                count <= orig[0].len(),
                forall|i: int| 0 <= i < n ==> (#[trigger] orig[i]).len() == orig[0].len(),
                data@.len() == n - c,
                kept@.len() == c,
                block@.len() == c,
                forall|i: int| 0 <= i < n - c ==> (#[trigger] data@[i])@ == orig[c + i],
                forall|i: int| 0 <= i < c ==> (#[trigger] block@[i])@ == orig[i].take(
                    count as int,
                ),
                forall|i: int| 0 <= i < c ==> (#[trigger] kept@[i])@ == orig[i].skip(
                    count as int,
                ),
        {
            let mut head = data.remove(0);
            let tail = head.split_off(count);
            proof {
                assert(head@ =~= orig[c as int].take(count as int));
                assert(tail@ =~= orig[c as int].skip(count as int));
            }
            block.push(head);
            kept.push(tail);
        }
        core::mem::swap(&mut self.data, &mut kept);
        proof {
            assert forall|c: int| 0 <= c < n implies #[trigger] self@[c] == orig[c].skip(
                count as int,
            ) by {
                assert(self@[c] == self.data@[c]@);
            }
            assert forall|c: int| 0 <= c < self@.len() implies (#[trigger] self@[c]).len()
                == self@[0].len() by {
                assert(orig[c].len() == orig[0].len());
            }
        }
        block
    }
}

} // verus!
