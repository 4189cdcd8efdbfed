//! Sound in pieces, in frames and as bytes, and the reports of its level.

use vstd::prelude::*;

use crate::sound::{
    chunk_frames, frame_views, frames_of, level_is_due, neighbours, pcm_bytes, remainder,
    sample_bits, split_frames, whole_chunks, ChunkBuffer, LevelReports,
};

verus! {

/// A piece is a tenth of a second.
pub proof fn law_chunk_frames(sample_rate: u32, frames: usize)
    requires
        call_ensures(chunk_frames, (sample_rate,), frames),
    ensures
        10 * frames <= sample_rate < 10 * frames + 10,
{
}

/// The level is reported if there is sound and 66 milliseconds have passed.
pub proof fn law_level_is_due(samples: usize, elapsed_nanos: u128, due: bool)
    requires
        call_ensures(level_is_due, (samples, elapsed_nanos), due),
    ensures
        due <==> samples > 0 && elapsed_nanos >= 66 * 1_000_000,
{
}

/// The first report waits from the beginning on.
pub proof fn law_new_level_reports(now: u128, reports: LevelReports)
    requires
        call_ensures(LevelReports::new, (now,), reports),
    ensures
        reports.last_report() == now,
{
}

/// A report is due if there is sound and the last one is 66 milliseconds ago;
/// only then does the wait begin again.
pub proof fn law_level_step(reports: &mut LevelReports, samples: usize, now: u128, due: bool)
    requires
        call_ensures(LevelReports::step, (reports, samples, now), due),
    ensures
        due <==> samples > 0 && now >= old(reports).last_report() + 66 * 1_000_000,
        due ==> final(reports).last_report() == now,
        !due ==> final(reports).last_report() == old(reports).last_report(),
{
}

/// A new buffer is empty.
pub proof fn law_new_buffer<T: Copy>(buffer: ChunkBuffer<T>)
    requires
        call_ensures(ChunkBuffer::<T>::new, (), buffer),
    ensures
        buffer@.len() == 0,
{
}

/// Samples go to the end of a buffer.
pub proof fn law_extend_buffer<T: Copy>(buffer: &mut ChunkBuffer<T>, samples: &[T])
    requires
        call_ensures(ChunkBuffer::<T>::extend, (buffer, samples), ()),
    ensures
        final(buffer)@.len() == old(buffer)@.len() + samples@.len(),
        forall|i: int|
            0 <= i < old(buffer)@.len() ==> #[trigger] final(buffer)@[i] == old(buffer)@[i],
        forall|i: int|
            old(buffer)@.len() <= i < final(buffer)@.len() ==> #[trigger] final(buffer)@[i]
                == samples@[i - old(buffer)@.len()],
{
}

/// A piece is taken from the front of a buffer just if it holds that many
/// samples, and the others move up.
pub proof fn law_next_chunk<T: Copy>(
    buffer: &mut ChunkBuffer<T>,
    frames: usize,
    chunk: Option<Vec<T>>,
)
    requires
        call_ensures(ChunkBuffer::<T>::next_chunk, (buffer, frames), chunk),
    ensures
        chunk is Some <==> frames <= old(buffer)@.len(),
        chunk is None ==> final(buffer)@ == old(buffer)@,
        chunk is Some ==> {
            &&& chunk->0@.len() == frames
            &&& chunk->0@ + final(buffer)@ == old(buffer)@
        },
{
    if chunk is Some {
        assert(chunk->0@ + final(buffer)@ == old(buffer)@);
    }
}

/// The pieces follow each other without a gap: the one with index `at` begins
/// after `at` pieces, and has the full length.
pub proof fn law_where_chunk_is<T>(samples: Seq<T>, frames: nat, at: int)
    requires
        frames > 0,
        0 <= at < whole_chunks(samples, frames).len(),
    ensures
        0 <= at * frames,
        at * frames + frames <= samples.len(),
        whole_chunks(samples, frames)[at] == samples.subrange(at * frames, at * frames + frames),
    decreases samples.len(),
{
    let rest = samples.skip(frames as int);
    if at == 0 {
        assert(samples.take(frames as int) == samples.subrange(0, frames as int));
    } else {
        law_where_chunk_is(rest, frames, at - 1);
        assert(whole_chunks(samples, frames)[at] == whole_chunks(rest, frames)[at - 1]);
        assert((at - 1) * frames + frames == at * frames) by (nonlinear_arith);
        assert(rest.subrange((at - 1) * frames, (at - 1) * frames + frames) == samples.subrange(
            at * frames,
            at * frames + frames,
        ));
    }
}

/// There are as many pieces as go into the samples; what is left behind them is
/// shorter than a piece.
pub proof fn law_how_many_chunks<T>(samples: Seq<T>, frames: nat)
    requires
        frames > 0,
    ensures
        0 <= whole_chunks(samples, frames).len() * frames <= samples.len(),
        remainder(samples, frames) == samples.skip(
            (whole_chunks(samples, frames).len() * frames) as int,
        ),
        remainder(samples, frames).len() < frames,
    decreases samples.len(),
{
    let chunks = whole_chunks(samples, frames);
    if frames <= samples.len() {
        let rest = samples.skip(frames as int);
        law_how_many_chunks(rest, frames);
        let others = whole_chunks(rest, frames);
        assert(chunks.len() * frames == others.len() * frames + frames) by (nonlinear_arith)
            requires
                chunks.len() == others.len() + 1,
        ;
        assert(rest.skip((others.len() * frames) as int) == samples.skip(
            (chunks.len() * frames) as int,
        ));
    } else {
        assert(chunks.len() * frames == 0);
        assert(samples.skip(0) == samples);
    }
}

/// There are just as many frames as it takes to hold all samples.
pub proof fn law_how_many_frames<T: Copy>(samples: &[T], channels: usize, frames: Vec<Vec<T>>)
    requires
        channels > 0,
        call_ensures(split_frames::<T>, (samples, channels), frames),
    ensures
        frames@.len() > 0 ==> (frames@.len() - 1) * channels < samples@.len(),
        samples@.len() <= frames@.len() * channels,
{
    let whole = whole_chunks(samples@, channels as nat).len() as int;
    law_how_many_chunks(samples@, channels as nat);
    assert(frame_views(frames@).len() == frames@.len());
    assert((whole - 1) * channels == whole * channels - channels) by (nonlinear_arith);
    assert((whole + 1) * channels == whole * channels + channels) by (nonlinear_arith);
}

/// A frame holds the next sample of each channel; the last one holds what is
/// left, and only it can be short.
pub proof fn law_where_frame_is<T: Copy>(
    samples: &[T],
    channels: usize,
    frames: Vec<Vec<T>>,
    at: int,
)
    requires
        channels > 0,
        call_ensures(split_frames::<T>, (samples, channels), frames),
        0 <= at < frames@.len(),
    ensures
        0 <= at * channels < samples@.len(),
        at * channels + channels <= samples@.len() ==> frames@[at]@ == samples@.subrange(
            at * channels,
            at * channels + channels,
        ),
        at * channels + channels > samples@.len() ==> at == frames@.len() - 1 && frames@[at]@
            == samples@.skip(at * channels),
{
    let chunks = whole_chunks(samples@, channels as nat);
    let rest = remainder(samples@, channels as nat);
    law_how_many_chunks(samples@, channels as nat);
    assert(frame_views(frames@).len() == frames@.len());
    assert(frame_views(frames@)[at] == frames@[at]@);
    if at < chunks.len() {
        law_where_chunk_is(samples@, channels as nat, at);
    } else {
        assert(frames_of(samples@, channels as nat)[at] == rest);
    }
}

/// Between two samples sound lies between those; behind the last one it goes on
/// unchanged, and past the end there is silence.
pub proof fn law_neighbours<T: Copy>(samples: &[T], at: usize, silence: T, pair: (T, T))
    requires
        call_ensures(neighbours::<T>, (samples, at, silence), pair),
    ensures
        at + 1 < samples@.len() ==> pair == (samples@[at as int], samples@[at + 1]),
        at + 1 == samples@.len() ==> pair == (samples@[at as int], samples@[at as int]),
        at >= samples@.len() ==> pair == (silence, silence),
{
}

/// Each sample is written in two bytes, the lower one first; a negative one as
/// what it is above the least multiple of two to the sixteenth.
pub proof fn law_pcm_bytes(samples: &[i16], bytes: Vec<u8>, at: int)
    requires
        call_ensures(pcm_bytes, (samples,), bytes),
        0 <= at < samples@.len(),
    ensures
        bytes@.len() == 2 * samples@.len(),
        bytes@[2 * at] + 256 * bytes@[2 * at + 1] == (samples@[at] + 65536) % 65536,
{
    let sample = samples@[at];
    assert(sample_bits(sample) == bytes@[2 * at] + 0x100 * bytes@[2 * at + 1]);
}

} // verus!
