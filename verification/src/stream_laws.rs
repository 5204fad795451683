//! What holds of the byte stream over many steps: an open stream never
//! closes the file, a finite stream sends exactly the file that
//! `GifStream::encode_to_vec` builds, and every prefix of an open stream is
//! the open file of that many frames.

use vstd::prelude::*;

use crate::gif_blocks::{gif_image_data, gif_repeat_extension, gif_signature, gif_trailer};
use crate::gif_stream::{
    encoded_gif, frame_block, frames_bytes, frames_exhausted, gif_delay_cs, gif_prelude,
    initial_model, stream_step, trailer_due, StreamModel, StreamOutput, StreamPhase,
    TrailerPolicy,
};

verus! {

/// The bytes a step hands out (none for a wait or the end).
pub open spec fn output_bytes(out: StreamOutput) -> Seq<u8> {
    match out {
        StreamOutput::Chunk(bytes) => bytes,
        _ => Seq::empty(),
    }
}

/// `k` steps from `m`: the state reached and the bytes handed out on the
/// way, in order.
pub open spec fn run(m: StreamModel, k: nat) -> (StreamModel, Seq<u8>)
    decreases k,
{
    if k == 0 {
        (m, Seq::empty())
    } else {
        let (m1, out) = stream_step(m);
        let (end, rest) = run(m1, (k - 1) as nat);
        (end, output_bytes(out) + rest)
    }
}

/// Steps that `k` frames take once the prelude is out: one per frame, and
/// one wait before every frame but the first when the interval is not empty.
pub open spec fn frame_steps(k: nat, interval: nat) -> nat {
    if k == 0 {
        0
    } else if interval == 0 {
        k
    } else {
        (2 * k - 1) as nat
    }
}

/// Steps of a finite stream of `n` frames, from the first step to the
/// handing out of the trailer.
pub open spec fn finite_stream_steps(n: nat, interval: nat) -> nat {
    1 + frame_steps(n, interval) + 1
}

proof fn lemma_run_one(m: StreamModel)
    ensures
        run(m, 1) == (stream_step(m).0, output_bytes(stream_step(m).1)),
{
    reveal_with_fuel(run, 2);
    assert(output_bytes(stream_step(m).1) + Seq::<u8>::empty() =~= output_bytes(stream_step(m).1));
}

proof fn lemma_run_split(m: StreamModel, a: nat, b: nat)
    ensures
        run(m, a + b) == (run(run(m, a).0, b).0, run(m, a).1 + run(
            run(m, a).0,
            b,
        ).1),
    decreases a,
{
    if a == 0 {
        assert(run(m, 0).1 + run(m, b).1 =~= run(m, b).1);
    } else {
        let m1 = stream_step(m).0;
        lemma_run_split(m1, (a - 1) as nat, b);
        assert(((a + b) - 1) as nat == ((a - 1) as nat + b));
        let x = output_bytes(stream_step(m).1);
        let y = run(m1, (a - 1) as nat).1;
        let z = run(run(m1, (a - 1) as nat).0, b).1;
        assert(x + (y + z) =~= (x + y) + z);
    }
}

/// The bytes ending each image block: the image data ends with the block
/// terminator 0.
proof fn lemma_image_data_ends_with_terminator(lzw: Seq<u8>)
    ensures
        gif_image_data(lzw).len() > 0,
        gif_image_data(lzw).last() == 0u8,
{
}

proof fn lemma_frames_bytes_step(delay: u16, k: nat)
    requires
        k < u32::MAX,
    ensures
        frames_bytes(delay, k + 1) == frames_bytes(delay, k) + frame_block(k as u32, delay),
{
}

/// From the state right after the prelude, `frame_steps(k, interval)`
/// steps send frames `0 .. k`; the stream then waits for frame
/// `k`, or holds the trailer if frame `k - 1` completes a finite file.
proof fn lemma_run_frames(m: StreamModel, k: nat)
    requires
        m.pending is None,
        m.phase == (StreamPhase::Frame { index: 0, waiting: false }),
        1 <= k <= u32::MAX,
        forall|t: u32| t + 1 < k ==> !trailer_due(m.policy, t),
        forall|t: u32| t < k ==> !frames_exhausted(m.policy, t),
    ensures
        run(m, frame_steps(k, m.interval)).1 == frames_bytes(m.delay, k),
        run(m, frame_steps(k, m.interval)).0 == (if trailer_due(m.policy, (k - 1) as u32) {
            StreamModel { phase: StreamPhase::Done, pending: Some(gif_trailer()), ..m }
        } else {
            StreamModel { phase: StreamPhase::Frame { index: k as u32, waiting: true }, ..m }
        }),
    decreases k,
{
    if k == 1 {
        assert(frames_bytes(m.delay, 1) =~= frame_block(0, m.delay)) by {
            assert(frames_bytes(m.delay, 0) =~= Seq::<u8>::empty());
        }
        lemma_run_one(m);
    } else {
        let j = (k - 1) as nat;
        lemma_run_frames(m, j);
        assert(!trailer_due(m.policy, (j - 1) as u32));
        let mid = run(m, frame_steps(j, m.interval)).0;
        assert(mid == StreamModel {
            phase: StreamPhase::Frame { index: j as u32, waiting: true },
            ..m
        });
        lemma_frames_bytes_step(m.delay, j);
        if m.interval == 0 {
            assert(frame_steps(k, m.interval) == frame_steps(j, m.interval) + 1);
            lemma_run_split(m, frame_steps(j, m.interval), 1);
            lemma_run_one(mid);
        } else {
            assert(frame_steps(k, m.interval) == frame_steps(j, m.interval) + 2);
            lemma_run_split(m, frame_steps(j, m.interval), 2);
            let waited = stream_step(mid).0;
            assert(waited == StreamModel {
                phase: StreamPhase::Frame { index: j as u32, waiting: false },
                ..m
            });
            lemma_run_one(mid);
            lemma_run_one(waited);
            lemma_run_split(mid, 1, 1);
            assert(output_bytes(stream_step(mid).1) + output_bytes(stream_step(waited).1) =~= output_bytes(
                stream_step(waited).1,
            ));
        }
    }
}

/// A finite stream sends exactly the file that `encode_to_vec` builds:
/// for `AfterN(n)`, the chunks handed out (the prelude, one chunk per
/// frame, then the trailer) concatenate to `encoded_gif(AfterN(n), ..)`,
/// and the stream then ends.
pub proof fn lemma_finite_stream_matches_file(n: u32, interval: nat)
    ensures
        ({
            let (end, bytes) = run(
                initial_model(TrailerPolicy::AfterN(n), interval),
                finite_stream_steps(n as nat, interval),
            );
            &&& bytes == encoded_gif(TrailerPolicy::AfterN(n), gif_delay_cs(interval), 0)
            &&& end.phase is Done
            &&& end.pending is None
            &&& stream_step(end).1 is End
        }),
{
    let m0 = initial_model(TrailerPolicy::AfterN(n), interval);
    let m1 = stream_step(m0).0;
    let k = n as nat;
    lemma_run_one(m0);
    if n == 0 {
        lemma_run_split(m0, 1, 1);
        lemma_run_one(m1);
        assert(frames_bytes(m0.delay, 0) =~= Seq::<u8>::empty());
        assert(gif_prelude() + gif_trailer() =~= encoded_gif(
            TrailerPolicy::AfterN(n),
            gif_delay_cs(interval),
            0,
        ));
    } else {
        assert forall|t: u32| t + 1 < k implies !trailer_due(m1.policy, t) by {}
        assert forall|t: u32| t < k implies !frames_exhausted(m1.policy, t) by {}
        lemma_run_frames(m1, k);
        let held = run(m1, frame_steps(k, interval)).0;
        assert(trailer_due(m1.policy, (k - 1) as u32));
        lemma_run_split(m0, 1, frame_steps(k, interval));
        lemma_run_split(m0, 1 + frame_steps(k, interval), 1);
        lemma_run_one(held);
        assert((gif_prelude() + frames_bytes(m0.delay, k)) + gif_trailer() =~= encoded_gif(
            TrailerPolicy::AfterN(n),
            gif_delay_cs(interval),
            0,
        ));
    }
}

/// Every prefix of a stream that does not close the file (`Never`, and
/// `OnDrop`, whose trailer never reaches the wire) is an open file: after
/// the prelude and `k` frames, the chunks handed out concatenate to what
/// `encode_to_vec(k)` builds under `Never`.
pub proof fn lemma_open_stream_prefix_is_open_file(policy: TrailerPolicy, k: u32, interval: nat)
    requires
        !(policy is AfterN),
    ensures
        run(initial_model(policy, interval), 1 + frame_steps(k as nat, interval)).1
            == encoded_gif(TrailerPolicy::Never, gif_delay_cs(interval), k),
{
    let m0 = initial_model(policy, interval);
    let m1 = stream_step(m0).0;
    lemma_run_split(m0, 1, frame_steps(k as nat, interval));
    lemma_run_one(m0);
    if k == 0 {
        assert(run(m1, 0).1 =~= Seq::<u8>::empty());
        assert(gif_prelude() + Seq::<u8>::empty() =~= encoded_gif(
            TrailerPolicy::Never,
            gif_delay_cs(interval),
            k,
        ));
    } else {
        assert forall|t: u32| t + 1 < k implies !trailer_due(m1.policy, t) by {}
        assert forall|t: u32| t < k implies !frames_exhausted(m1.policy, t) by {}
        lemma_run_frames(m1, k as nat);
        assert(gif_prelude() + frames_bytes(m0.delay, k as nat) =~= encoded_gif(
            TrailerPolicy::Never,
            gif_delay_cs(interval),
            k,
        ));
    }
}

/// The state of a stream that does not close the file and is under way.
pub open spec fn open_stream_state(m: StreamModel) -> bool {
    &&& !(m.policy is AfterN)
    &&& m.pending is None
    &&& !(m.phase is Done)
}

/// One step of a stream that does not close the file: the stream goes on,
/// and what it hands out is a wait or a chunk ending with a block
/// terminator 0, never with the trailer byte 0x3B.
pub proof fn lemma_open_stream_step(m: StreamModel)
    requires
        open_stream_state(m),
    ensures
        open_stream_state(stream_step(m).0),
        stream_step(m).1 is Chunk || stream_step(m).1 is Wait,
        stream_step(m).1 matches StreamOutput::Chunk(bytes) ==> bytes.len() > 0 && bytes.last()
            == 0u8,
{
    match m.phase {
        StreamPhase::Header => {
            assert(gif_repeat_extension(gif::Repeat::Infinite).last() == 0u8);
        },
        StreamPhase::Frame { index, waiting } => {
            lemma_image_data_ends_with_terminator(
                crate::gif_blocks::gif_lzw_data(crate::frames::frame_pixels(index)),
            );
        },
        StreamPhase::Done => {},
    }
}

proof fn lemma_open_stream_run(m: StreamModel, k: nat)
    requires
        open_stream_state(m),
    ensures
        open_stream_state(run(m, k).0),
        run(m, k).1.len() > 0 ==> run(m, k).1.last() == 0u8,
    decreases k,
{
    if k > 0 {
        lemma_open_stream_step(m);
        let m1 = stream_step(m).0;
        lemma_open_stream_run(m1, (k - 1) as nat);
        let o = output_bytes(stream_step(m).1);
        let r = run(m1, (k - 1) as nat).1;
        assert(run(m, k).1 == o + r);
        if r.len() > 0 {
            assert((o + r).last() == r.last());
        } else {
            assert(o + r =~= o);
        }
    }
}

/// A stream that does not close the file (`Never` or `OnDrop`) never does,
/// over its whole run: after any number of steps it has not ended, its
/// next step does not end it, nothing is pending, and the bytes sent so far
/// end with a block terminator 0, never with the trailer byte 0x3B.
pub proof fn lemma_open_stream_never_closes(policy: TrailerPolicy, interval: nat, k: nat)
    requires
        !(policy is AfterN),
    ensures
        ({
            let (end, bytes) = run(initial_model(policy, interval), k);
            &&& !(end.phase is Done)
            &&& end.pending is None
            &&& !(stream_step(end).1 is End)
            &&& k > 0 ==> bytes.len() > 0 && bytes.last() == 0u8
        }),
{
    let m0 = initial_model(policy, interval);
    lemma_open_stream_run(m0, k);
    lemma_open_stream_step(run(m0, k).0);
    if k > 0 {
        lemma_run_split(m0, 1, (k - 1) as nat);
        lemma_run_one(m0);
    }
}

proof fn lemma_frames_bytes_end(delay: u16, k: nat)
    requires
        k >= 1,
        k <= u32::MAX + 1,
    ensures
        frames_bytes(delay, k).len() > 0,
        frames_bytes(delay, k).last() == 0u8,
{
    lemma_image_data_ends_with_terminator(
        crate::gif_blocks::gif_lzw_data(crate::frames::frame_pixels((k - 1) as u32)),
    );
}

/// Every file `encode_to_vec` builds is a GIF89a file; it ends with the
/// trailer 0x3B exactly when the policy closes the file, and an open file
/// ends with a block terminator 0 instead.
pub proof fn lemma_encoded_gif_shape(policy: TrailerPolicy, delay: u16, max_frames: u32)
    ensures
        ({
            let file = encoded_gif(policy, delay, max_frames);
            &&& file.len() > 6
            &&& file.take(6) == gif_signature()
            &&& policy is Never ==> file.last() == 0u8
            &&& !(policy is Never) ==> file.last() == 0x3Bu8
        }),
{
    let count = crate::gif_stream::frame_count(policy, max_frames) as nat;
    let body = gif_prelude() + frames_bytes(delay, count);
    assert(gif_prelude().take(6) =~= gif_signature());
    assert(body.take(6) =~= gif_signature());
    if count >= 1 {
        lemma_frames_bytes_end(delay, count);
        assert(body.last() == frames_bytes(delay, count).last());
    } else {
        assert(frames_bytes(delay, count) =~= Seq::<u8>::empty());
        assert(body =~= gif_prelude());
        assert(gif_prelude().last() == gif_repeat_extension(gif::Repeat::Infinite).last());
    }
    let file = encoded_gif(policy, delay, max_frames);
    assert(file.take(6) =~= body.take(6));
}

/// Steps keep what a stream was made with: its policy, its interval and
/// its frame delay.
pub proof fn lemma_run_keeps_configuration(m: StreamModel, k: nat)
    ensures
        run(m, k).0.policy == m.policy,
        run(m, k).0.interval == m.interval,
        run(m, k).0.delay == m.delay,
    decreases k,
{
    if k > 0 {
        lemma_run_keeps_configuration(stream_step(m).0, (k - 1) as nat);
    }
}

/// A stream waits exactly the interval it was made with: whatever the
/// policy and however many steps it has taken, a step that tells the
/// transport to wait asks for `interval` nanoseconds, and a stream with an
/// empty interval never waits at all.
pub proof fn lemma_stream_waits_its_interval(policy: TrailerPolicy, interval: nat, k: nat)
    ensures
        ({
            let here = run(initial_model(policy, interval), k).0;
            &&& stream_step(here).1 matches StreamOutput::Wait(w) ==> w == interval
            &&& interval == 0 ==> !(stream_step(here).1 is Wait)
        }),
{
    lemma_run_keeps_configuration(initial_model(policy, interval), k);
}

/// A finite file holds exactly `n` frames whatever `max_frames` is: the
/// file `encode_to_vec(max_frames)` builds under `AfterN(n)` is the prelude,
/// frames `0 .. n` and the trailer, the same for every `max_frames`, and it
/// is what the finite stream of `AfterN(n)` sends.
pub proof fn lemma_finite_file_ignores_max_frames(n: u32, interval: nat, max_frames: u32, other: u32)
    ensures
        encoded_gif(TrailerPolicy::AfterN(n), gif_delay_cs(interval), max_frames) == gif_prelude()
            + frames_bytes(gif_delay_cs(interval), n as nat) + gif_trailer(),
        encoded_gif(TrailerPolicy::AfterN(n), gif_delay_cs(interval), max_frames) == encoded_gif(
            TrailerPolicy::AfterN(n),
            gif_delay_cs(interval),
            other,
        ),
        encoded_gif(TrailerPolicy::AfterN(n), gif_delay_cs(interval), max_frames) == run(
            initial_model(TrailerPolicy::AfterN(n), interval),
            finite_stream_steps(n as nat, interval),
        ).1,
{
    lemma_finite_stream_matches_file(n, interval);
}

} // verus!
