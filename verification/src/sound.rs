//! Recorded sound on its way to the speech service: pieces of a tenth of a
//! second, as bytes.

use vstd::prelude::*;

verus! {

/// The milliseconds of sound in a piece.
pub const CHUNK_MILLIS: u32 = 100;

/// The least number of nanoseconds between two reports of the sound level: 66
/// milliseconds.
pub const LEVEL_NANOS: u128 = 66_000_000;

/// The number of samples in a piece, at the given number of samples per
/// second.
pub fn chunk_frames(sample_rate: u32) -> (frames: usize)
    ensures
        frames == sample_rate * CHUNK_MILLIS / 1000,
        frames == sample_rate / 10,
{
    assert(sample_rate * 100 <= 0xffff_ffff * 100);
    let frames: u64 = sample_rate as u64 * CHUNK_MILLIS as u64 / 1000;
    assert(sample_rate as int * 100 / 1000 == sample_rate as int / 10) by (nonlinear_arith);
    frames as usize
}

/// The sound level is to be reported: there is sound, and the last report is
/// long enough ago. Times are in nanoseconds.
pub open spec fn is_due(samples: nat, last: int, now: int) -> bool {
    samples > 0 && now - last >= LEVEL_NANOS
}

/// Whether to report the sound level: there is sound, and the last report is
/// long enough ago.
pub fn level_is_due(samples: usize, elapsed_nanos: u128) -> (due: bool)
    ensures
        due == is_due(samples as nat, 0, elapsed_nanos as int),
{
    samples > 0 && elapsed_nanos >= LEVEL_NANOS
}

/// When the sound level was reported last, in nanoseconds since some moment.
pub struct LevelReports {
    last: u128,
}

impl LevelReports {
    /// The time of the last report.
    pub closed spec fn last_report(&self) -> int {
        self.last as int
    }

    /// The wait for the first report begins now.
    pub fn new(now: u128) -> (reports: Self)
        ensures
            reports.last_report() == now,
    {
        LevelReports { last: now }
    }

    /// Whether to report the level of the samples that came now. If so, the
    /// wait begins again.
    pub fn step(&mut self, samples: usize, now: u128) -> (due: bool)
        ensures
            due == is_due(samples as nat, old(self).last_report(), now as int),
            final(self).last_report() == (if due {
                now as int
            } else {
                old(self).last_report()
            }),
    {
        let due = now >= self.last && level_is_due(samples, now - self.last);
        if due {
            self.last = now;
        }
        due
    }
}

/// The times of the last report over a run: before each arrival of samples, and
/// after all of them.
pub open spec fn is_level_run(lasts: Seq<int>, samples: Seq<nat>, times: Seq<int>) -> bool {
    &&& samples.len() == times.len()
    &&& lasts.len() == times.len() + 1
    &&& forall|i: int|
        0 <= i < times.len() ==> #[trigger] lasts[i + 1] == (if is_due(
            samples[i],
            lasts[i],
            times[i],
        ) {
            times[i]
        } else {
            lasts[i]
        })
}

/// Two reports of a run are at least `LEVEL_NANOS` apart.
pub proof fn law_reports_are_apart(
    lasts: Seq<int>,
    samples: Seq<nat>,
    times: Seq<int>,
    first: int,
    second: int,
)
    requires
        is_level_run(lasts, samples, times),
        0 <= first < second < times.len(),
        is_due(samples[first], lasts[first], times[first]),
        is_due(samples[second], lasts[second], times[second]),
    ensures
        times[second] - times[first] >= LEVEL_NANOS,
{
    assert(lasts[first + 1] == times[first]);
    lemma_last_report_does_not_go_back(lasts, samples, times, first + 1, second);
}

proof fn lemma_last_report_does_not_go_back(
    lasts: Seq<int>,
    samples: Seq<nat>,
    times: Seq<int>,
    from: int,
    to: int,
)
    requires
        is_level_run(lasts, samples, times),
        0 <= from <= to <= times.len(),
    ensures
        lasts[from] <= lasts[to],
    decreases to - from,
{
    if from < to {
        lemma_last_report_does_not_go_back(lasts, samples, times, from, to - 1);
        assert(lasts[to - 1 + 1] >= lasts[to - 1]);
    }
}

/// Arrivals without samples do not restart the wait: after any number of them
/// the last report is the one it was.
pub proof fn law_silence_does_not_restart_the_wait(
    lasts: Seq<int>,
    samples: Seq<nat>,
    times: Seq<int>,
    from: int,
    to: int,
)
    requires
        is_level_run(lasts, samples, times),
        0 <= from <= to <= times.len(),
        forall|i: int| from <= i < to ==> #[trigger] samples[i] == 0,
    ensures
        lasts[to] == lasts[from],
    decreases to - from,
{
    if from < to {
        law_silence_does_not_restart_the_wait(lasts, samples, times, from, to - 1);
        assert(samples[to - 1] == 0);
        assert(lasts[to - 1 + 1] == lasts[to - 1]);
    }
}

/// The whole pieces that samples make, in order.
pub open spec fn whole_chunks<T>(samples: Seq<T>, frames: nat) -> Seq<Seq<T>>
    decreases samples.len(),
{
    if 0 < frames <= samples.len() {
        seq![samples.take(frames as int)] + whole_chunks(samples.skip(frames as int), frames)
    } else {
        Seq::empty()
    }
}

/// The samples that are left after the whole pieces.
pub open spec fn remainder<T>(samples: Seq<T>, frames: nat) -> Seq<T>
    decreases samples.len(),
{
    if 0 < frames <= samples.len() {
        remainder(samples.skip(frames as int), frames)
    } else {
        samples
    }
}

/// The pieces one after another.
pub open spec fn rejoined<T>(chunks: Seq<Seq<T>>) -> Seq<T>
    decreases chunks.len(),
{
    if chunks.len() == 0 {
        Seq::empty()
    } else {
        chunks[0] + rejoined(chunks.drop_first())
    }
}

/// Samples that wait until they make a piece.
pub struct ChunkBuffer<T> {
    held: Vec<T>,
}

impl<T> View for ChunkBuffer<T> {
    type V = Seq<T>;

    closed spec fn view(&self) -> Seq<T> {
        self.held@
    }
}

impl<T: Copy> ChunkBuffer<T> {
    /// A buffer without samples.
    pub fn new() -> (buffer: Self)
        ensures
            buffer@ == Seq::<T>::empty(),
    {
        ChunkBuffer { held: Vec::new() }
    }

    /// Adds samples at the end.
    pub fn extend(&mut self, samples: &[T])
        ensures
            final(self)@ == old(self)@ + samples@,
    {
        let mut at: usize = 0;
        assert(self@ == old(self)@ + samples@.take(0));
        while at < samples.len()
            invariant
                at <= samples.len(),
                self@ == old(self)@ + samples@.take(at as int),
            decreases samples.len() - at,
        {
            self.held.push(samples[at]);
            assert(samples@.take(at + 1) == samples@.take(at as int).push(samples@[at as int]));
            assert(self@ == old(self)@ + samples@.take(at + 1));
            at += 1;
        }
        assert(samples@.take(samples@.len() as int) == samples@);
    }

    /// Takes a piece of the given number of samples from the front, if there
    /// are that many.
    pub fn next_chunk(&mut self, frames: usize) -> (chunk: Option<Vec<T>>)
        ensures
            match chunk {
                Some(chunk) => {
                    &&& frames <= old(self)@.len()
                    &&& chunk@ == old(self)@.take(frames as int)
                    &&& final(self)@ == old(self)@.skip(frames as int)
                    &&& frames > 0 ==> whole_chunks(old(self)@, frames as nat) == seq![chunk@]
                        + whole_chunks(final(self)@, frames as nat)
                },
                None => {
                    &&& frames > old(self)@.len()
                    &&& final(self)@ == old(self)@
                    &&& whole_chunks(old(self)@, frames as nat).len() == 0
                },
            },
            remainder(final(self)@, frames as nat) == remainder(old(self)@, frames as nat),
    {
        if self.held.len() < frames {
            return None;
        }
        let mut chunk = self.held.split_off(frames);
        std::mem::swap(&mut chunk, &mut self.held);
        Some(chunk)
    }
}

/// The frames of sound with several channels: one sample of each channel, and
/// in the last frame what is left.
pub open spec fn frames_of<T>(samples: Seq<T>, channels: nat) -> Seq<Seq<T>> {
    let rest = remainder(samples, channels);
    if rest.len() > 0 {
        whole_chunks(samples, channels).push(rest)
    } else {
        whole_chunks(samples, channels)
    }
}

/// The views of a list of frames.
pub open spec fn frame_views<T>(frames: Seq<Vec<T>>) -> Seq<Seq<T>> {
    frames.map_values(|frame: Vec<T>| frame@)
}

/// Cuts sound with several channels into frames.
pub fn split_frames<T: Copy>(samples: &[T], channels: usize) -> (frames: Vec<Vec<T>>)
    requires
        channels > 0,
    ensures
        frame_views(frames@) == frames_of(samples@, channels as nat),
{
    let mut buffer: ChunkBuffer<T> = ChunkBuffer::new();
    buffer.extend(samples);
    assert(buffer@ == samples@);
    let mut frames: Vec<Vec<T>> = Vec::new();
    let mut more = true;
    assert(frame_views(frames@) + whole_chunks(buffer@, channels as nat) == whole_chunks(
        samples@,
        channels as nat,
    ));
    while more
        invariant
            channels > 0,
            frame_views(frames@) + whole_chunks(buffer@, channels as nat) == whole_chunks(
                samples@,
                channels as nat,
            ),
            remainder(buffer@, channels as nat) == remainder(samples@, channels as nat),
            !more ==> buffer@.len() < channels,
        decreases buffer@.len() + if more { 1int } else { 0int },
    {
        let ghost taken = frame_views(frames@);
        match buffer.next_chunk(channels) {
            Some(frame) => {
                frames.push(frame);
                assert(frame_views(frames@) == taken.push(frames@.last()@));
                assert(frame_views(frames@) + whole_chunks(buffer@, channels as nat) == taken + (
                seq![frames@.last()@] + whole_chunks(buffer@, channels as nat)));
            },
            None => more = false,
        }
    }
    assert(whole_chunks(buffer@, channels as nat) == Seq::<Seq<T>>::empty());
    assert(frame_views(frames@) == whole_chunks(samples@, channels as nat));
    if buffer.held.len() > 0 {
        let ghost taken = frame_views(frames@);
        frames.push(buffer.held);
        assert(frame_views(frames@) == taken.push(buffer@));
    }
    frames
}

/// The two samples that the sound between `at` and the next index lies
/// between. Past the end there is silence; after the last sample it goes on
/// unchanged.
pub fn neighbours<T: Copy>(samples: &[T], at: usize, silence: T) -> (pair: (T, T))
    ensures
        pair.0 == (if at < samples@.len() {
            samples@[at as int]
        } else {
            silence
        }),
        pair.1 == (if at + 1 < samples@.len() {
            samples@[at + 1]
        } else {
            pair.0
        }),
{
    if at >= samples.len() {
        (silence, silence)
    } else if samples.len() - at > 1 {
        (samples[at], samples[at + 1])
    } else {
        (samples[at], samples[at])
    }
}

/// The value of a sample as it is written: negative ones count down from the
/// top of the unsigned range.
pub open spec fn sample_bits(sample: i16) -> int {
    if sample < 0 {
        sample + 0x1_0000
    } else {
        sample as int
    }
}

/// The samples as bytes, two for each, the lower one first.
pub fn pcm_bytes(samples: &[i16]) -> (bytes: Vec<u8>)
    ensures
        bytes@.len() == 2 * samples@.len(),
        forall|i: int|
            0 <= i < samples@.len() ==> sample_bits(#[trigger] samples@[i]) == bytes@[2 * i] + 0x100
                * bytes@[2 * i + 1],
{
    let mut bytes: Vec<u8> = Vec::new();
    let mut at: usize = 0;
    while at < samples.len()
        invariant
            at <= samples.len(),
            bytes@.len() == 2 * at,
            forall|i: int|
                0 <= i < at ==> sample_bits(#[trigger] samples@[i]) == bytes@[2 * i] + 0x100
                    * bytes@[2 * i + 1],
        decreases samples.len() - at,
    {
        let sample: i16 = samples[at];
        let bits: u16 = if sample < 0 {
            (sample as i32 + 0x1_0000) as u16
        } else {
            sample as u16
        };
        bytes.push((bits % 0x100) as u8);
        bytes.push((bits / 0x100) as u8);
        at += 1;
    }
    bytes
}

/// Cutting sound into pieces loses nothing and adds nothing: the pieces and
/// what is left after them are the sound.
pub proof fn law_chunks_keep_all_samples<T>(samples: Seq<T>, frames: nat)
    ensures
        rejoined(whole_chunks(samples, frames)) + remainder(samples, frames) == samples,
    decreases samples.len(),
{
    if 0 < frames <= samples.len() {
        let rest = samples.skip(frames as int);
        law_chunks_keep_all_samples(rest, frames);
        let chunks = whole_chunks(samples, frames);
        assert(chunks.drop_first() == whole_chunks(rest, frames));
        assert(samples.take(frames as int) + rest == samples);
        assert(rejoined(chunks) + remainder(samples, frames) == samples.take(frames as int) + (
        rejoined(whole_chunks(rest, frames)) + remainder(rest, frames)));
    } else {
        assert(rejoined(whole_chunks(samples, frames)) == Seq::<T>::empty());
    }
}

/// Every piece has the full length, and less than one piece is left.
pub proof fn law_chunks_are_full<T>(samples: Seq<T>, frames: nat)
    requires
        frames > 0,
    ensures
        forall|i: int|
            0 <= i < whole_chunks(samples, frames).len() ==> (#[trigger] whole_chunks(
                samples,
                frames,
            )[i]).len() == frames,
        remainder(samples, frames).len() < frames,
    decreases samples.len(),
{
    if frames <= samples.len() {
        let rest = samples.skip(frames as int);
        law_chunks_are_full(rest, frames);
        let chunks = whole_chunks(samples, frames);
        assert forall|i: int| 0 <= i < chunks.len() implies (#[trigger] chunks[i]).len()
            == frames by {
            if i > 0 {
                assert(chunks[i] == whole_chunks(rest, frames)[i - 1]);
            }
        }
    }
}

/// It makes no difference how the sound arrives: what is left of the first
/// part is continued by the second, and the pieces are those of both at once.
pub proof fn law_chunks_ignore_arrival<T>(first: Seq<T>, second: Seq<T>, frames: nat)
    ensures
        whole_chunks(first + second, frames) == whole_chunks(first, frames) + whole_chunks(
            remainder(first, frames) + second,
            frames,
        ),
        remainder(first + second, frames) == remainder(remainder(first, frames) + second, frames),
    decreases first.len(),
{
    if 0 < frames <= first.len() {
        let rest = first.skip(frames as int);
        law_chunks_ignore_arrival(rest, second, frames);
        assert((first + second).take(frames as int) == first.take(frames as int));
        assert((first + second).skip(frames as int) == rest + second);
    } else {
        assert(whole_chunks(first, frames) == Seq::<Seq<T>>::empty());
    }
}

/// The frames are the sound: nothing is lost and nothing added.
pub proof fn law_frames_keep_all_samples<T>(samples: Seq<T>, channels: nat)
    ensures
        rejoined(frames_of(samples, channels)) == samples,
{
    law_chunks_keep_all_samples(samples, channels);
    let rest = remainder(samples, channels);
    if rest.len() > 0 {
        lemma_rejoined_with_one_more(whole_chunks(samples, channels), rest);
    } else {
        assert(rejoined(whole_chunks(samples, channels)) + rest == rejoined(
            whole_chunks(samples, channels),
        ));
    }
}

proof fn lemma_rejoined_with_one_more<T>(chunks: Seq<Seq<T>>, last: Seq<T>)
    ensures
        rejoined(chunks.push(last)) == rejoined(chunks) + last,
    decreases chunks.len(),
{
    let all = chunks.push(last);
    if chunks.len() == 0 {
        assert(all.drop_first() == chunks);
        assert(rejoined(all) == last + rejoined(chunks));
    } else {
        lemma_rejoined_with_one_more(chunks.drop_first(), last);
        assert(all.drop_first() == chunks.drop_first().push(last));
        assert(all[0] + (rejoined(chunks.drop_first()) + last) == chunks[0] + rejoined(
            chunks.drop_first(),
        ) + last);
    }
}

} // verus!
