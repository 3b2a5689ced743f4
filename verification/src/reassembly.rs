//! Reassembly of per-channel chunks into aligned multi-channel sample
//! frames.
//!
//! The device transmits each channel's chunk as a separate notification in a
//! fixed, repeating channel order. The slate keeps the most recent full
//! chunk per channel; a write to the last channel of a family commits the
//! cycle, emitting one frame per sample index in increasing order and
//! zeroing the slate. A chunk shorter than the family's chunk length is
//! ignored for the cycle.

use vstd::prelude::*;

verus! {

pub const EEG_CHANNEL_COUNT: usize = 5;

pub const EEG_CHUNK_SIZE: usize = 12;

pub const EEG_LAST_CHANNEL: usize = 4;

pub const PPG_CHANNEL_COUNT: usize = 3;

pub const PPG_CHUNK_SIZE: usize = 6;

pub const PPG_LAST_CHANNEL: usize = 2;

/// One aligned EEG sample: one value per channel, in family order.
#[derive(Debug, Clone, Copy, PartialEq, Eq, Structural)]
pub struct EegFrame {
    pub tp9: u8,
    pub af7: u8,
    pub af8: u8,
    pub tp10: u8,
    pub aux: u8,
}

/// One aligned PPG sample: one value per channel, in family order.
#[derive(Debug, Clone, Copy, PartialEq, Eq, Structural)]
pub struct PpgFrame {
    pub ambient: u32,
    pub infrared: u32,
    pub red: u32,
}

/// A completed sample frame of either family.
#[derive(Debug, Clone, Copy, PartialEq, Eq, Structural)]
pub enum DataType {
    Eeg(EegFrame),
    Ppg(PpgFrame),
}

/// The all-zero EEG slate: one zeroed chunk buffer per channel.
pub open spec fn zero_eeg_slate() -> Seq<Seq<u8>> {
    Seq::new(EEG_CHANNEL_COUNT as nat, |c: int| Seq::new(EEG_CHUNK_SIZE as nat, |i: int| 0u8))
}

/// The all-zero PPG slate: one zeroed chunk buffer per channel.
pub open spec fn zero_ppg_slate() -> Seq<Seq<u32>> {
    Seq::new(PPG_CHANNEL_COUNT as nat, |c: int| Seq::new(PPG_CHUNK_SIZE as nat, |i: int| 0u32))
}

/// The EEG slate after writing `samples` to `channel`: a full chunk
/// replaces the channel's buffer with its first `EEG_CHUNK_SIZE` samples; a
/// short chunk is ignored.
pub open spec fn eeg_write_slate(slate: Seq<Seq<u8>>, channel: int, samples: Seq<u8>) -> Seq<
    Seq<u8>,
> {
    if samples.len() >= EEG_CHUNK_SIZE as int {
        slate.update(channel, samples.take(EEG_CHUNK_SIZE as int))
    } else {
        slate
    }
}

/// The PPG slate after writing `samples` to `channel`.
pub open spec fn ppg_write_slate(slate: Seq<Seq<u32>>, channel: int, samples: Seq<u32>) -> Seq<
    Seq<u32>,
> {
    if samples.len() >= PPG_CHUNK_SIZE as int {
        slate.update(channel, samples.take(PPG_CHUNK_SIZE as int))
    } else {
        slate
    }
}

/// The frames a committed EEG cycle emits: for each sample index in
/// increasing order, one frame holding that index's sample from every
/// channel's buffer, in channel order.
pub open spec fn eeg_emission(slate: Seq<Seq<u8>>) -> Seq<DataType> {
    Seq::new(
        EEG_CHUNK_SIZE as nat,
        |i: int|
            DataType::Eeg(
                EegFrame {
                    tp9: slate[0][i],
                    af7: slate[1][i],
                    af8: slate[2][i],
                    tp10: slate[3][i],
                    aux: slate[4][i],
                },
            ),
    )
}

/// The frames a committed PPG cycle emits.
pub open spec fn ppg_emission(slate: Seq<Seq<u32>>) -> Seq<DataType> {
    Seq::new(
        PPG_CHUNK_SIZE as nat,
        |i: int|
            DataType::Ppg(PpgFrame { ambient: slate[0][i], infrared: slate[1][i], red: slate[2][i] }),
    )
}

/// One EEG write step: the slate after the write and the frames emitted.
/// Writing the last channel commits the cycle: the written slate is emitted
/// and the slate is zeroed; any other write emits nothing.
pub open spec fn eeg_step(slate: Seq<Seq<u8>>, channel: int, samples: Seq<u8>) -> (
    Seq<Seq<u8>>,
    Seq<DataType>,
) {
    let written = eeg_write_slate(slate, channel, samples);
    if channel == EEG_LAST_CHANNEL as int {
        (zero_eeg_slate(), eeg_emission(written))
    } else {
        (written, Seq::<DataType>::empty())
    }
}

/// One PPG write step.
pub open spec fn ppg_step(slate: Seq<Seq<u32>>, channel: int, samples: Seq<u32>) -> (
    Seq<Seq<u32>>,
    Seq<DataType>,
) {
    let written = ppg_write_slate(slate, channel, samples);
    if channel == PPG_LAST_CHANNEL as int {
        (zero_ppg_slate(), ppg_emission(written))
    } else {
        (written, Seq::<DataType>::empty())
    }
}

/// A run of EEG write steps over a sequence of `(channel, samples)` events:
/// the final slate and all frames emitted, in order.
pub open spec fn eeg_run(slate: Seq<Seq<u8>>, events: Seq<(int, Seq<u8>)>) -> (
    Seq<Seq<u8>>,
    Seq<DataType>,
)
    decreases events.len(),
{
    if events.len() == 0 {
        (slate, Seq::<DataType>::empty())
    } else {
        let head = eeg_step(slate, events[0].0, events[0].1);
        let rest = eeg_run(head.0, events.drop_first());
        (rest.0, head.1 + rest.1)
    }
}

/// A run of PPG write steps.
pub open spec fn ppg_run(slate: Seq<Seq<u32>>, events: Seq<(int, Seq<u32>)>) -> (
    Seq<Seq<u32>>,
    Seq<DataType>,
)
    decreases events.len(),
{
    if events.len() == 0 {
        (slate, Seq::<DataType>::empty())
    } else {
        let head = ppg_step(slate, events[0].0, events[0].1);
        let rest = ppg_run(head.0, events.drop_first());
        (rest.0, head.1 + rest.1)
    }
}

/// The per-family accumulator: the most recent full chunk per channel,
/// pending frame emission.
pub struct ChannelChunks {
    eeg_chunks: Vec<Vec<u8>>,
    ppg_chunks: Vec<Vec<u32>>,
}

impl ChannelChunks {
    /// The EEG slate: one chunk buffer per channel, in channel order.
    pub closed spec fn eeg_slate(self) -> Seq<Seq<u8>> {
        Seq::new(self.eeg_chunks@.len(), |c: int| self.eeg_chunks@[c]@)
    }

    /// The PPG slate.
    pub closed spec fn ppg_slate(self) -> Seq<Seq<u32>> {
        Seq::new(self.ppg_chunks@.len(), |c: int| self.ppg_chunks@[c]@)
    }

    /// Every channel has a buffer of exactly its family's chunk length.
    pub open spec fn wf(self) -> bool {
        &&& self.eeg_slate().len() == EEG_CHANNEL_COUNT as int
        &&& forall|c: int|
            0 <= c < EEG_CHANNEL_COUNT as int ==> (#[trigger] self.eeg_slate()[c]).len()
                == EEG_CHUNK_SIZE as int
        &&& self.ppg_slate().len() == PPG_CHANNEL_COUNT as int
        &&& forall|c: int|
            0 <= c < PPG_CHANNEL_COUNT as int ==> (#[trigger] self.ppg_slate()[c]).len()
                == PPG_CHUNK_SIZE as int
    }

    /// A fresh accumulator, all buffers zeroed.
    pub fn new() -> (r: Self)
        ensures
            r.wf(),
            r.eeg_slate() == zero_eeg_slate(),
            r.ppg_slate() == zero_ppg_slate(),
    {
        let mut eeg_chunks: Vec<Vec<u8>> = Vec::new();
        let mut c: usize = 0;
        while c < EEG_CHANNEL_COUNT
            invariant
                c <= EEG_CHANNEL_COUNT,
                eeg_chunks@.len() == c as int,
                forall|j: int|
                    0 <= j < c as int ==> (#[trigger] eeg_chunks@[j])@ == Seq::new(
                        EEG_CHUNK_SIZE as nat,
                        |i: int| 0u8,
                    ),
            decreases EEG_CHANNEL_COUNT - c,
        {
            eeg_chunks.push(zero_row_u8(EEG_CHUNK_SIZE));
            c = c + 1;
        }
        let mut ppg_chunks: Vec<Vec<u32>> = Vec::new();
        let mut c: usize = 0;
        while c < PPG_CHANNEL_COUNT
            invariant
                c <= PPG_CHANNEL_COUNT,
                ppg_chunks@.len() == c as int,
                forall|j: int|
                    0 <= j < c as int ==> (#[trigger] ppg_chunks@[j])@ == Seq::new(
                        PPG_CHUNK_SIZE as nat,
                        |i: int| 0u32,
                    ),
            decreases PPG_CHANNEL_COUNT - c,
        {
            ppg_chunks.push(zero_row_u32(PPG_CHUNK_SIZE));
            c = c + 1;
        }
        let r = ChannelChunks { eeg_chunks, ppg_chunks };
        proof {
            assert(r.eeg_slate() =~= zero_eeg_slate());
            assert(r.ppg_slate() =~= zero_ppg_slate());
        }
        r
    }

    /// Zero every EEG channel buffer, leaving the PPG slate as it is.
    pub fn reset_eeg(&mut self)
        requires
            old(self).wf(),
        ensures
            final(self).wf(),
            final(self).eeg_slate() == zero_eeg_slate(),
            final(self).ppg_slate() == old(self).ppg_slate(),
    {
        let mut c: usize = 0;
        while c < EEG_CHANNEL_COUNT
            invariant
                c <= EEG_CHANNEL_COUNT,
                self.eeg_slate().len() == EEG_CHANNEL_COUNT as int,
                forall|j: int|
                    0 <= j < c as int ==> (#[trigger] self.eeg_slate()[j]) == Seq::new(
                        EEG_CHUNK_SIZE as nat,
                        |i: int| 0u8,
                    ),
                forall|j: int|
                    c as int <= j < EEG_CHANNEL_COUNT as int ==> (
                    #[trigger] self.eeg_slate()[j]).len() == EEG_CHUNK_SIZE as int,
                self.ppg_slate() == old(self).ppg_slate(),
            decreases EEG_CHANNEL_COUNT - c,
        {
            let ghost prev = *self;
            self.eeg_chunks[c] = zero_row_u8(EEG_CHUNK_SIZE);
            proof {
                assert(self.ppg_slate() =~= prev.ppg_slate());
                assert forall|j: int|
                    0 <= j < EEG_CHANNEL_COUNT as int && j != c as int implies #[trigger] self.eeg_slate()[j]
                    == prev.eeg_slate()[j] by {
                    assert(self.eeg_slate()[j] == self.eeg_chunks@[j]@);
                    assert(prev.eeg_slate()[j] == prev.eeg_chunks@[j]@);
                }
                assert(self.eeg_slate()[c as int] == self.eeg_chunks@[c as int]@);
            }
            c = c + 1;
        }
        proof {
            assert(self.eeg_slate() =~= zero_eeg_slate());
        }
    }

    /// Zero every PPG channel buffer, leaving the EEG slate as it is.
    pub fn reset_ppg(&mut self)
        requires
            old(self).wf(),
        ensures
            final(self).wf(),
            final(self).ppg_slate() == zero_ppg_slate(),
            final(self).eeg_slate() == old(self).eeg_slate(),
    {
        let mut c: usize = 0;
        while c < PPG_CHANNEL_COUNT
            invariant
                c <= PPG_CHANNEL_COUNT,
                self.ppg_slate().len() == PPG_CHANNEL_COUNT as int,
                forall|j: int|
                    0 <= j < c as int ==> (#[trigger] self.ppg_slate()[j]) == Seq::new(
                        PPG_CHUNK_SIZE as nat,
                        |i: int| 0u32,
                    ),
                forall|j: int|
                    c as int <= j < PPG_CHANNEL_COUNT as int ==> (
                    #[trigger] self.ppg_slate()[j]).len() == PPG_CHUNK_SIZE as int,
                self.eeg_slate() == old(self).eeg_slate(),
            decreases PPG_CHANNEL_COUNT - c,
        {
            let ghost prev = *self;
            self.ppg_chunks[c] = zero_row_u32(PPG_CHUNK_SIZE);
            proof {
                assert(self.eeg_slate() =~= prev.eeg_slate());
                assert forall|j: int|
                    0 <= j < PPG_CHANNEL_COUNT as int && j != c as int implies #[trigger] self.ppg_slate()[j]
                    == prev.ppg_slate()[j] by {
                    assert(self.ppg_slate()[j] == self.ppg_chunks@[j]@);
                    assert(prev.ppg_slate()[j] == prev.ppg_chunks@[j]@);
                }
                assert(self.ppg_slate()[c as int] == self.ppg_chunks@[c as int]@);
            }
            c = c + 1;
        }
        proof {
            assert(self.ppg_slate() =~= zero_ppg_slate());
        }
    }

    /// Write one EEG channel's chunk and commit the cycle if `channel` is
    /// the last channel of the family. The result and the new slate are
    /// exactly one `eeg_step` of the old slate.
    pub fn write_eeg(&mut self, channel: usize, samples: &Vec<u8>) -> (frames: Vec<DataType>)
        requires
            old(self).wf(),
            channel < EEG_CHANNEL_COUNT,
        ensures
            final(self).wf(),
            final(self).ppg_slate() == old(self).ppg_slate(),
            final(self).eeg_slate() == eeg_step(
                old(self).eeg_slate(),
                channel as int,
                samples@,
            ).0,
            frames@ == eeg_step(old(self).eeg_slate(), channel as int, samples@).1,
    {
        let ghost written = eeg_write_slate(old(self).eeg_slate(), channel as int, samples@);
        if samples.len() >= EEG_CHUNK_SIZE {
            let mut row: Vec<u8> = Vec::new();
            let mut i: usize = 0;
            while i < EEG_CHUNK_SIZE
                invariant
                    i <= EEG_CHUNK_SIZE,
                    samples@.len() >= EEG_CHUNK_SIZE as int,
                    row@ == samples@.take(i as int),
                decreases EEG_CHUNK_SIZE - i,
            {
                row.push(samples[i]);
                proof {
                    assert(row@ =~= samples@.take(i as int + 1));
                }
                i = i + 1;
            }
            let ghost prev = *self;
            self.eeg_chunks[channel] = row;
            proof {
                assert(self.eeg_slate() =~= written);
                assert(self.ppg_slate() =~= prev.ppg_slate());
            }
        }
        proof {
            assert(self.eeg_slate() =~= written);
        }
        let mut frames: Vec<DataType> = Vec::new();
        if channel == EEG_LAST_CHANNEL {
            let mut i: usize = 0;
            while i < EEG_CHUNK_SIZE
                invariant
                    i <= EEG_CHUNK_SIZE,
                    self.wf(),
                    self.eeg_slate() == written,
                    frames@.len() == i as int,
                    forall|j: int| 0 <= j < i as int ==> frames@[j] == eeg_emission(written)[j],
                decreases EEG_CHUNK_SIZE - i,
            {
                proof {
                    assert(self.eeg_chunks@.len() == self.eeg_slate().len());
                    assert(self.eeg_slate()[0] == self.eeg_chunks@[0]@);
                    assert(self.eeg_slate()[1] == self.eeg_chunks@[1]@);
                    assert(self.eeg_slate()[2] == self.eeg_chunks@[2]@);
                    assert(self.eeg_slate()[3] == self.eeg_chunks@[3]@);
                    assert(self.eeg_slate()[4] == self.eeg_chunks@[4]@);
                }
                let frame = EegFrame {
                    tp9: self.eeg_chunks[0][i],
                    af7: self.eeg_chunks[1][i],
                    af8: self.eeg_chunks[2][i],
                    tp10: self.eeg_chunks[3][i],
                    aux: self.eeg_chunks[4][i],
                };
                frames.push(DataType::Eeg(frame));
                i = i + 1;
            }
            proof {
                assert(frames@ =~= eeg_emission(written));
            }
            self.reset_eeg();
        }
        frames
    }

    /// Write one PPG channel's chunk and commit the cycle if `channel` is
    /// the last channel of the family. The result and the new slate are
    /// exactly one `ppg_step` of the old slate.
    pub fn write_ppg(&mut self, channel: usize, samples: &Vec<u32>) -> (frames: Vec<DataType>)
        requires
            old(self).wf(),
            channel < PPG_CHANNEL_COUNT,
        ensures
            final(self).wf(),
            final(self).eeg_slate() == old(self).eeg_slate(),
            final(self).ppg_slate() == ppg_step(
                old(self).ppg_slate(),
                channel as int,
                samples@,
            ).0,
            frames@ == ppg_step(old(self).ppg_slate(), channel as int, samples@).1,
    {
        let ghost written = ppg_write_slate(old(self).ppg_slate(), channel as int, samples@);
        if samples.len() >= PPG_CHUNK_SIZE {
            let mut row: Vec<u32> = Vec::new();
            let mut i: usize = 0;
            while i < PPG_CHUNK_SIZE
                invariant
                    i <= PPG_CHUNK_SIZE,
                    samples@.len() >= PPG_CHUNK_SIZE as int,
                    row@ == samples@.take(i as int),
                decreases PPG_CHUNK_SIZE - i,
            {
                row.push(samples[i]);
                proof {
                    assert(row@ =~= samples@.take(i as int + 1));
                }
                i = i + 1;
            }
            let ghost prev = *self;
            self.ppg_chunks[channel] = row;
            proof {
                assert(self.ppg_slate() =~= written);
                assert(self.eeg_slate() =~= prev.eeg_slate());
            }
        }
        proof {
            assert(self.ppg_slate() =~= written);
        }
        let mut frames: Vec<DataType> = Vec::new();
        if channel == PPG_LAST_CHANNEL {
            let mut i: usize = 0;
            while i < PPG_CHUNK_SIZE
                invariant
                    i <= PPG_CHUNK_SIZE,
                    self.wf(),
                    self.ppg_slate() == written,
                    frames@.len() == i as int,
                    forall|j: int| 0 <= j < i as int ==> frames@[j] == ppg_emission(written)[j],
                decreases PPG_CHUNK_SIZE - i,
            {
                proof {
                    assert(self.ppg_chunks@.len() == self.ppg_slate().len());
                    assert(self.ppg_slate()[0] == self.ppg_chunks@[0]@);
                    assert(self.ppg_slate()[1] == self.ppg_chunks@[1]@);
                    assert(self.ppg_slate()[2] == self.ppg_chunks@[2]@);
                }
                let frame = PpgFrame {
                    ambient: self.ppg_chunks[0][i],
                    infrared: self.ppg_chunks[1][i],
                    red: self.ppg_chunks[2][i],
                };
                frames.push(DataType::Ppg(frame));
                i = i + 1;
            }
            proof {
                assert(frames@ =~= ppg_emission(written));
            }
            self.reset_ppg();
        }
        frames
    }
}

/// Splitting an EEG run: running `a + b` runs `a`, then runs `b` from the
/// slate `a` left, and the emitted frames are those of `a` followed by
/// those of `b`.
pub proof fn lemma_eeg_run_append(slate: Seq<Seq<u8>>, a: Seq<(int, Seq<u8>)>, b: Seq<(int, Seq<u8>)>)
    ensures
        eeg_run(slate, a + b).0 == eeg_run(eeg_run(slate, a).0, b).0,
        eeg_run(slate, a + b).1 == eeg_run(slate, a).1 + eeg_run(eeg_run(slate, a).0, b).1,
    decreases a.len(),
{
    if a.len() == 0 {
        assert(a + b =~= b);
        assert(eeg_run(slate, a).1 + eeg_run(eeg_run(slate, a).0, b).1 =~= eeg_run(slate, b).1);
    } else {
        let head = eeg_step(slate, a[0].0, a[0].1);
        assert((a + b)[0] == a[0]);
        assert((a + b).drop_first() =~= a.drop_first() + b);
        lemma_eeg_run_append(head.0, a.drop_first(), b);
        assert(eeg_run(slate, a + b).1 =~= eeg_run(slate, a).1 + eeg_run(
            eeg_run(slate, a).0,
            b,
        ).1);
    }
}

/// Splitting a PPG run.
pub proof fn lemma_ppg_run_append(
    slate: Seq<Seq<u32>>,
    a: Seq<(int, Seq<u32>)>,
    b: Seq<(int, Seq<u32>)>,
)
    ensures
        ppg_run(slate, a + b).0 == ppg_run(ppg_run(slate, a).0, b).0,
        ppg_run(slate, a + b).1 == ppg_run(slate, a).1 + ppg_run(ppg_run(slate, a).0, b).1,
    decreases a.len(),
{
    if a.len() == 0 {
        assert(a + b =~= b);
        assert(ppg_run(slate, a).1 + ppg_run(ppg_run(slate, a).0, b).1 =~= ppg_run(slate, b).1);
    } else {
        let head = ppg_step(slate, a[0].0, a[0].1);
        assert((a + b)[0] == a[0]);
        assert((a + b).drop_first() =~= a.drop_first() + b);
        lemma_ppg_run_append(head.0, a.drop_first(), b);
        assert(ppg_run(slate, a + b).1 =~= ppg_run(slate, a).1 + ppg_run(
            ppg_run(slate, a).0,
            b,
        ).1);
    }
}

/// An EEG run whose last event writes the last channel leaves the slate
/// all-zero, whatever came before.
pub proof fn lemma_eeg_run_resets(slate: Seq<Seq<u8>>, events: Seq<(int, Seq<u8>)>)
    requires
        events.len() > 0,
        events.last().0 == EEG_LAST_CHANNEL as int,
    ensures
        eeg_run(slate, events).0 == zero_eeg_slate(),
    decreases events.len(),
{
    let head = eeg_step(slate, events[0].0, events[0].1);
    let rest = events.drop_first();
    if events.len() == 1 {
        assert(events[0] == events.last());
        assert(rest.len() == 0);
        assert(eeg_run(head.0, rest).0 == head.0);
    } else {
        assert(rest.last() == events.last());
        lemma_eeg_run_resets(head.0, rest);
    }
}

/// A PPG run whose last event writes the last channel leaves the slate
/// all-zero.
pub proof fn lemma_ppg_run_resets(slate: Seq<Seq<u32>>, events: Seq<(int, Seq<u32>)>)
    requires
        events.len() > 0,
        events.last().0 == PPG_LAST_CHANNEL as int,
    ensures
        ppg_run(slate, events).0 == zero_ppg_slate(),
    decreases events.len(),
{
    let head = ppg_step(slate, events[0].0, events[0].1);
    let rest = events.drop_first();
    if events.len() == 1 {
        assert(events[0] == events.last());
        assert(rest.len() == 0);
        assert(ppg_run(head.0, rest).0 == head.0);
    } else {
        assert(rest.last() == events.last());
        lemma_ppg_run_resets(head.0, rest);
    }
}

/// Emission is idempotent across repeated EEG cycles: feeding the same
/// events twice in a row, starting from a zeroed slate, emits the same
/// batch of frames twice, provided the events end by writing the last
/// channel (which commits and zeroes the slate).
pub proof fn lemma_eeg_emission_idempotent(events: Seq<(int, Seq<u8>)>)
    requires
        events.len() > 0,
        events.last().0 == EEG_LAST_CHANNEL as int,
    ensures
        eeg_run(zero_eeg_slate(), events + events).1 == eeg_run(zero_eeg_slate(), events).1
            + eeg_run(zero_eeg_slate(), events).1,
{
    lemma_eeg_run_append(zero_eeg_slate(), events, events);
    lemma_eeg_run_resets(zero_eeg_slate(), events);
}

/// Emission is idempotent across repeated PPG cycles.
pub proof fn lemma_ppg_emission_idempotent(events: Seq<(int, Seq<u32>)>)
    requires
        events.len() > 0,
        events.last().0 == PPG_LAST_CHANNEL as int,
    ensures
        ppg_run(zero_ppg_slate(), events + events).1 == ppg_run(zero_ppg_slate(), events).1
            + ppg_run(zero_ppg_slate(), events).1,
{
    lemma_ppg_run_append(zero_ppg_slate(), events, events);
    lemma_ppg_run_resets(zero_ppg_slate(), events);
}

/// A full EEG cycle — a full chunk written to every channel in channel
/// order — emits exactly `EEG_CHUNK_SIZE` frames; the frame at sample index
/// `i` holds sample `i` of every channel's chunk, in channel order, and the
/// slate is all-zero afterwards. The slate's earlier contents do not show
/// in the frames.
pub proof fn lemma_eeg_full_cycle(slate: Seq<Seq<u8>>, events: Seq<(int, Seq<u8>)>)
    requires
        slate.len() == EEG_CHANNEL_COUNT as int,
        events.len() == EEG_CHANNEL_COUNT as int,
        forall|c: int| 0 <= c < EEG_CHANNEL_COUNT as int ==> (#[trigger] events[c]).0 == c,
        forall|c: int|
            0 <= c < EEG_CHANNEL_COUNT as int ==> (#[trigger] events[c]).1.len()
                >= EEG_CHUNK_SIZE as int,
    ensures
        eeg_run(slate, events).1.len() == EEG_CHUNK_SIZE as int,
        forall|i: int|
            0 <= i < EEG_CHUNK_SIZE as int ==> eeg_run(slate, events).1[i] == (DataType::Eeg(
                EegFrame {
                    tp9: events[0].1[i],
                    af7: events[1].1[i],
                    af8: events[2].1[i],
                    tp10: events[3].1[i],
                    aux: events[4].1[i],
                },
            )),
        eeg_run(slate, events).0 == zero_eeg_slate(),
{
    let e1 = events.drop_first();
    let e2 = e1.drop_first();
    let e3 = e2.drop_first();
    let e4 = e3.drop_first();
    assert(e1[0] == events[1]);
    assert(e2[0] == events[2]);
    assert(e3[0] == events[3]);
    assert(e4[0] == events[4]);
    let s1 = eeg_step(slate, events[0].0, events[0].1).0;
    let s2 = eeg_step(s1, e1[0].0, e1[0].1).0;
    let s3 = eeg_step(s2, e2[0].0, e2[0].1).0;
    let s4 = eeg_step(s3, e3[0].0, e3[0].1).0;
    let written = eeg_write_slate(s4, 4, events[4].1);
    assert(written[0] == events[0].1.take(EEG_CHUNK_SIZE as int));
    assert(written[1] == events[1].1.take(EEG_CHUNK_SIZE as int));
    assert(written[2] == events[2].1.take(EEG_CHUNK_SIZE as int));
    assert(written[3] == events[3].1.take(EEG_CHUNK_SIZE as int));
    assert(written[4] == events[4].1.take(EEG_CHUNK_SIZE as int));
    let e5 = e4.drop_first();
    assert(e5.len() == 0);
    assert(eeg_run(zero_eeg_slate(), e5).1 =~= Seq::<DataType>::empty());
    assert(eeg_run(zero_eeg_slate(), e5).0 == zero_eeg_slate());
    assert(eeg_run(s4, e4).1 =~= eeg_emission(written));
    assert(eeg_run(s3, e3).1 =~= eeg_run(s4, e4).1);
    assert(eeg_run(s2, e2).1 =~= eeg_run(s3, e3).1);
    assert(eeg_run(s1, e1).1 =~= eeg_run(s2, e2).1);
    assert(eeg_run(slate, events).1 =~= eeg_run(s1, e1).1);
    assert(eeg_run(s4, e4).0 == zero_eeg_slate());
    assert(eeg_run(slate, events).0 == eeg_run(s1, e1).0);
    assert(eeg_run(s1, e1).0 == eeg_run(s2, e2).0);
    assert(eeg_run(s2, e2).0 == eeg_run(s3, e3).0);
    assert(eeg_run(s3, e3).0 == eeg_run(s4, e4).0);
    assert forall|i: int| 0 <= i < EEG_CHUNK_SIZE as int implies eeg_run(slate, events).1[i] == (
    DataType::Eeg(
        EegFrame {
            tp9: events[0].1[i],
            af7: events[1].1[i],
            af8: events[2].1[i],
            tp10: events[3].1[i],
            aux: events[4].1[i],
        },
    )) by {
        assert(written[0][i] == events[0].1[i]);
        assert(written[1][i] == events[1].1[i]);
        assert(written[2][i] == events[2].1[i]);
        assert(written[3][i] == events[3].1[i]);
        assert(written[4][i] == events[4].1[i]);
    }
}

/// A full PPG cycle emits exactly `PPG_CHUNK_SIZE` frames holding the
/// written chunks' samples in channel order, and zeroes the slate.
pub proof fn lemma_ppg_full_cycle(slate: Seq<Seq<u32>>, events: Seq<(int, Seq<u32>)>)
    requires
        slate.len() == PPG_CHANNEL_COUNT as int,
        events.len() == PPG_CHANNEL_COUNT as int,
        forall|c: int| 0 <= c < PPG_CHANNEL_COUNT as int ==> (#[trigger] events[c]).0 == c,
        forall|c: int|
            0 <= c < PPG_CHANNEL_COUNT as int ==> (#[trigger] events[c]).1.len()
                >= PPG_CHUNK_SIZE as int,
    ensures
        ppg_run(slate, events).1.len() == PPG_CHUNK_SIZE as int,
        forall|i: int|
            0 <= i < PPG_CHUNK_SIZE as int ==> ppg_run(slate, events).1[i] == (DataType::Ppg(
                PpgFrame {
                    ambient: events[0].1[i],
                    infrared: events[1].1[i],
                    red: events[2].1[i],
                },
            )),
        ppg_run(slate, events).0 == zero_ppg_slate(),
{
    let e1 = events.drop_first();
    let e2 = e1.drop_first();
    assert(e1[0] == events[1]);
    assert(e2[0] == events[2]);
    let s1 = ppg_step(slate, events[0].0, events[0].1).0;
    let s2 = ppg_step(s1, e1[0].0, e1[0].1).0;
    let written = ppg_write_slate(s2, 2, events[2].1);
    assert(written[0] == events[0].1.take(PPG_CHUNK_SIZE as int));
    assert(written[1] == events[1].1.take(PPG_CHUNK_SIZE as int));
    assert(written[2] == events[2].1.take(PPG_CHUNK_SIZE as int));
    let e3 = e2.drop_first();
    assert(e3.len() == 0);
    assert(ppg_run(zero_ppg_slate(), e3).1 =~= Seq::<DataType>::empty());
    assert(ppg_run(zero_ppg_slate(), e3).0 == zero_ppg_slate());
    assert(ppg_run(s2, e2).1 =~= ppg_emission(written));
    assert(ppg_run(s1, e1).1 =~= ppg_run(s2, e2).1);
    assert(ppg_run(slate, events).1 =~= ppg_run(s1, e1).1);
    assert(ppg_run(s2, e2).0 == zero_ppg_slate());
    assert(ppg_run(slate, events).0 == ppg_run(s1, e1).0);
    assert(ppg_run(s1, e1).0 == ppg_run(s2, e2).0);
    assert forall|i: int| 0 <= i < PPG_CHUNK_SIZE as int implies ppg_run(slate, events).1[i] == (
    DataType::Ppg(
        PpgFrame { ambient: events[0].1[i], infrared: events[1].1[i], red: events[2].1[i] },
    )) by {
        assert(written[0][i] == events[0].1[i]);
        assert(written[1][i] == events[1].1[i]);
        assert(written[2][i] == events[2].1[i]);
    }
}

/// A vector of `len` zero bytes.
fn zero_row_u8(len: usize) -> (r: Vec<u8>)
    ensures
        r@ == Seq::new(len as nat, |i: int| 0u8),
{
    let mut r: Vec<u8> = Vec::new();
    let mut i: usize = 0;
    while i < len
        invariant
            i <= len,
            r@.len() == i as int,
            forall|j: int| 0 <= j < i as int ==> r@[j] == 0u8,
        decreases len - i,
    {
        r.push(0u8);
        i = i + 1;
    }
    proof {
        assert(r@ =~= Seq::new(len as nat, |i: int| 0u8));
    }
    r
}

/// A vector of `len` zero samples.
fn zero_row_u32(len: usize) -> (r: Vec<u32>)
    ensures
        r@ == Seq::new(len as nat, |i: int| 0u32),
{
    let mut r: Vec<u32> = Vec::new();
    let mut i: usize = 0;
    while i < len
        invariant
            i <= len,
            r@.len() == i as int,
            forall|j: int| 0 <= j < i as int ==> r@[j] == 0u32,
        decreases len - i,
    {
        r.push(0u32);
        i = i + 1;
    }
    proof {
        assert(r@ =~= Seq::new(len as nat, |i: int| 0u32));
    }
    r
}

} // verus!
