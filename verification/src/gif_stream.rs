//! Incremental GIF byte stream: header, frames, one chunk per frame, and a
//! trailer policy that decides whether (and when) the file is closed.

use vstd::prelude::*;

use crate::frames::{frame_pixels, FrameGenerator, GLOBAL_PALETTE, HEIGHT, WIDTH};
use crate::gif_blocks::{
    encoding_to_io, gif_encoder_new, gif_finish, gif_frame_block, gif_has_global_palette,
    gif_repeat_extension, gif_screen, gif_set_repeat, gif_take_written, gif_trailer,
    gif_write_indexed_frame, gif_written, GifEncoder,
};

verus! {

/// Number of nanoseconds in a second.
pub const NANOS_PER_SEC: u32 = 1_000_000_000;

/// A span of time with nanosecond precision (whole seconds plus the
/// nanoseconds of the last, partial second), as `std::time::Duration`
/// represents it. Its view is the total number of nanoseconds.
pub struct Interval {
    secs: u64,
    nanos: u32,
}

impl Interval {
    #[verifier::type_invariant]
    spec fn nanos_below_a_second(self) -> bool {
        self.nanos < NANOS_PER_SEC
    }

    /// The interval of length zero.
    pub fn zero() -> (r: Self)
        ensures
            r@ == 0,
    {
        Interval { secs: 0, nanos: 0 }
    }

    /// `secs` seconds plus `nanos` nanoseconds; nanoseconds beyond a second
    /// carry over into the seconds.
    pub fn new(secs: u64, nanos: u32) -> (r: Self)
        requires
            secs + nanos / NANOS_PER_SEC <= u64::MAX,
        ensures
            r@ == secs * 1_000_000_000 + nanos,
    {
        let extra: u32 = nanos / NANOS_PER_SEC;
        let rest: u32 = nanos % NANOS_PER_SEC;
        Interval { secs: secs + extra as u64, nanos: rest }
    }

    /// An interval of `millis` milliseconds.
    pub fn from_millis(millis: u64) -> (r: Self)
        ensures
            r@ == millis * 1_000_000,
    {
        let secs: u64 = millis / 1000;
        let rest: u64 = millis % 1000;
        let nanos: u32 = (rest * 1_000_000) as u32;
        Interval { secs, nanos }
    }

    /// An interval of `secs` whole seconds.
    pub fn from_secs(secs: u64) -> (r: Self)
        ensures
            r@ == secs * 1_000_000_000,
    {
        Interval { secs, nanos: 0 }
    }

    /// The whole seconds of the interval.
    pub fn as_secs(&self) -> (r: u64)
        ensures
            r == self@ / 1_000_000_000,
    {
        proof {
            use_type_invariant(self);
        }
        self.secs
    }

    /// The nanoseconds beyond the whole seconds.
    pub fn subsec_nanos(&self) -> (r: u32)
        ensures
            r == self@ % 1_000_000_000,
            r < NANOS_PER_SEC,
    {
        proof {
            use_type_invariant(self);
        }
        self.nanos
    }

    /// Whether the interval is empty.
    pub fn is_zero(&self) -> (r: bool)
        ensures
            r == (self@ == 0),
    {
        self.secs == 0 && self.nanos == 0
    }

    /// The number of whole milliseconds in the interval.
    pub fn as_millis(&self) -> (r: u128)
        ensures
            r == self@ / 1_000_000,
    {
        proof {
            use_type_invariant(self);
            assert((self.secs * 1_000_000_000 + self.nanos) / 1_000_000 == self.secs * 1000
                + self.nanos / 1_000_000) by (nonlinear_arith)
                requires
                    self.nanos < 1_000_000_000,
            ;
        }
        (self.secs as u128) * 1000 + (self.nanos / 1_000_000) as u128
    }
}

impl View for Interval {
    type V = nat;

    closed spec fn view(&self) -> nat {
        (self.secs * 1_000_000_000 + self.nanos) as nat
    }
}

impl Clone for Interval {
    fn clone(&self) -> (r: Self)
        ensures
            r@ == self@,
    {
        proof {
            use_type_invariant(self);
        }
        Interval { secs: self.secs, nanos: self.nanos }
    }
}

impl Copy for Interval {

}

/// When (if ever) to emit the GIF trailer byte `0x3B`.
#[derive(Debug, Clone, Copy, PartialEq, Eq, Structural)]
pub enum TrailerPolicy {
    /// Open stream — never write the trailer.
    Never,
    /// Finite GIF — write the trailer after `n` frames.
    AfterN(u32),
    /// Best-effort trailer when the stream is dropped.
    OnDrop,
}

/// The graphic-control delay (units of 10 ms) for a frame interval of
/// `nanos` nanoseconds: 0 for an empty interval, otherwise the whole
/// centiseconds, at least 1 and at most `u16::MAX`.
pub open spec fn gif_delay_cs(nanos: nat) -> u16 {
    if nanos == 0 {
        0
    } else {
        let cs = nanos / 10_000_000;
        if cs == 0 {
            1
        } else if cs > 0xFFFF {
            0xFFFF
        } else {
            cs as u16
        }
    }
}

/// The graphic-control delay that matches the send interval.
pub fn duration_to_gif_delay(interval: &Interval) -> (r: u16)
    ensures
        r == gif_delay_cs(interval@),
{
    if interval.is_zero() {
        return 0;
    }
    let millis: u128 = interval.as_millis();
    let cs_wide: u128 = millis / 10;
    let cs: u16 = if cs_wide > 0xFFFF { 0xFFFF } else { cs_wide as u16 };
    let r: u16 = if cs < 1 { 1 } else { cs };
    proof {
        assert(interval@ / 1_000_000 / 10 == interval@ / 10_000_000) by (nonlinear_arith);
    }
    r
}

/// The playback delay matches the send interval: an interval of `cs`
/// centiseconds (1 to `u16::MAX`) gives a graphic-control delay of exactly
/// `cs`, and every non-empty interval gives a delay of at least 1.
pub proof fn lemma_delay_matches_interval(cs: u16, nanos: nat)
    ensures
        cs >= 1 ==> gif_delay_cs((cs * 10_000_000) as nat) == cs,
        nanos > 0 ==> gif_delay_cs(nanos) >= 1,
{
    assert((cs * 10_000_000) / 10_000_000 == cs) by (nonlinear_arith);
}

/// How many frames `encode_to_vec(max_frames)` writes under `policy`.
pub open spec fn frame_count(policy: TrailerPolicy, max_frames: u32) -> u32 {
    match policy {
        TrailerPolicy::AfterN(n) => n,
        _ => max_frames,
    }
}

/// The global palette as a sequence.
pub open spec fn global_palette() -> Seq<u8> {
    seq![0u8, 0u8, 0u8, 255u8, 255u8, 255u8]
}

/// Header, screen descriptor, global colour table and the infinite-loop
/// extension: what the stream sends before its first frame.
pub open spec fn gif_prelude() -> Seq<u8> {
    gif_screen(64, 64, global_palette()) + gif_repeat_extension(gif::Repeat::Infinite)
}

/// The image block of frame `n`, with the given delay.
pub open spec fn frame_block(n: u32, delay: u16) -> Seq<u8> {
    gif_frame_block(64, 64, frame_pixels(n), delay)
}

/// Frames `0 .. k` of the synthetic scene, one image block after another.
pub open spec fn frames_bytes(delay: u16, k: nat) -> Seq<u8>
    decreases k,
{
    if k == 0 {
        Seq::empty()
    } else {
        frames_bytes(delay, (k - 1) as nat) + frame_block((k - 1) as u32, delay)
    }
}

/// The closing bytes under `policy`: the trailer, except for an open stream.
pub open spec fn closing_bytes(policy: TrailerPolicy) -> Seq<u8> {
    match policy {
        TrailerPolicy::Never => Seq::empty(),
        _ => gif_trailer(),
    }
}

/// The whole file `encode_to_vec(max_frames)` produces.
pub open spec fn encoded_gif(policy: TrailerPolicy, delay: u16, max_frames: u32) -> Seq<u8> {
    gif_prelude() + frames_bytes(delay, frame_count(policy, max_frames) as nat) + closing_bytes(
        policy,
    )
}

/// Owns the configuration of the GIF byte stream.
pub struct GifStream {
    interval: Interval,
    policy: TrailerPolicy,
    /// Graphic control delay in units of 10 ms (100 = 1.00 s).
    frame_delay_cs: u16,
}

impl GifStream {
    #[verifier::type_invariant]
    spec fn delay_matches_interval(self) -> bool {
        self.frame_delay_cs == gif_delay_cs(self.interval@)
    }

    /// The interval between frames.
    pub closed spec fn interval(self) -> Interval {
        self.interval
    }

    /// The trailer policy.
    pub closed spec fn policy(self) -> TrailerPolicy {
        self.policy
    }

    pub fn new(interval: Interval, policy: TrailerPolicy) -> (r: Self)
        ensures
            r.interval()@ == interval@,
            r.policy() == policy,
    {
        let frame_delay_cs = duration_to_gif_delay(&interval);
        GifStream { interval, policy, frame_delay_cs }
    }

    /// Encode frames into a single buffer (tests / offline).
    ///
    /// - `AfterN(n)`: encodes `n` frames and a trailer (ignores `max_frames`).
    /// - `Never`: encodes `max_frames` frames and **no** trailer.
    /// - `OnDrop`: encodes `max_frames` frames and a trailer.
    ///
    /// The encoder writes into memory and never fails here.
    pub fn encode_to_vec(&self, max_frames: u32) -> (r: std::io::Result<Vec<u8>>)
        ensures
            r is Ok,
            r matches Ok(bytes) ==> bytes@ == encoded_gif(
                self.policy(),
                gif_delay_cs(self.interval()@),
                max_frames,
            ),
    {
        proof {
            use_type_invariant(self);
        }
        let generator = FrameGenerator::new();
        let frame_count: u32 = match self.policy {
            TrailerPolicy::AfterN(n) => n,
            TrailerPolicy::Never | TrailerPolicy::OnDrop => max_frames,
        };
        let mut encoder = match gif_encoder_new(WIDTH, HEIGHT, GLOBAL_PALETTE.as_slice()) {
            Ok(encoder) => encoder,
            Err(err) => return Err(encoding_to_io(err)),
        };
        assert(GLOBAL_PALETTE@ == global_palette());
        match gif_set_repeat(&mut encoder, gif::Repeat::Infinite) {
            Ok(()) => {},
            Err(err) => return Err(encoding_to_io(err)),
        }
        let mut n: u32 = 0;
        while n < frame_count
            invariant
                n <= frame_count,
                frame_count == crate::gif_stream::frame_count(self.policy, max_frames),
                self.frame_delay_cs == gif_delay_cs(self.interval@),
                gif_has_global_palette(encoder),
                gif_written(encoder) == gif_prelude() + frames_bytes(self.frame_delay_cs, n as nat),
            decreases frame_count - n,
        {
            match write_frame(&mut encoder, &generator, n, self.frame_delay_cs) {
                Ok(()) => {},
                Err(err) => return Err(err),
            }
            assert(gif_written(encoder) == gif_prelude() + frames_bytes(
                self.frame_delay_cs,
                (n + 1) as nat,
            ));
            n = n + 1;
        }
        match self.policy {
            TrailerPolicy::Never => {
                // The encoder is dropped with an empty vector: whatever it
                // writes on drop is discarded, so the file stays open.
                let bytes = gif_take_written(&mut encoder);
                Ok(bytes)
            },
            TrailerPolicy::AfterN(_) | TrailerPolicy::OnDrop => gif_finish(encoder),
        }
    }

    /// The byte stream for this configuration, one chunk at a time.
    pub fn into_byte_stream(self) -> (r: GifByteStream)
        ensures
            r.model() == initial_model(self.policy(), self.interval()@),
    {
        GifByteStream::new(self)
    }
}

impl Clone for GifStream {
    fn clone(&self) -> (r: Self)
        ensures
            r.interval()@ == self.interval()@,
            r.policy() == self.policy(),
    {
        proof {
            use_type_invariant(self);
        }
        GifStream { interval: self.interval.clone(), policy: self.policy, frame_delay_cs: self.frame_delay_cs }
    }
}

/// Appends the image block of frame `n` to the encoder's output.
fn write_frame(encoder: &mut GifEncoder, generator: &FrameGenerator, n: u32, delay_cs: u16) -> (r:
    std::io::Result<()>)
    requires
        gif_has_global_palette(*old(encoder)),
    ensures
        r is Ok,
        gif_has_global_palette(*final(encoder)),
        gif_written(*final(encoder)) == gif_written(*old(encoder)) + frame_block(
            n,
            delay_cs,
        ),
{
    let pixels = generator.generate(n);
    match gif_write_indexed_frame(encoder, WIDTH, HEIGHT, pixels, delay_cs) {
        Ok(()) => Ok(()),
        Err(err) => Err(encoding_to_io(err)),
    }
}

/// The phase a byte stream is in.
pub enum StreamPhase {
    /// Nothing sent yet.
    Header,
    /// The prelude and frames `0 .. index` have been sent; `waiting` is set
    /// while the interval before frame `index` has not been waited out.
    Frame { index: u32, waiting: bool },
    /// The stream is over.
    Done,
}

/// The state of a byte stream as the contracts describe it.
pub ghost struct StreamModel {
    pub policy: TrailerPolicy,
    /// Graphic control delay of every frame.
    pub delay: u16,
    /// Interval between frames, in nanoseconds.
    pub interval: nat,
    pub phase: StreamPhase,
    /// Bytes to hand out before anything else (the trailer of a finite file).
    pub pending: Option<Seq<u8>>,
}

/// What one step of a byte stream hands to the transport.
pub ghost enum StreamOutput {
    /// A chunk of the file, to be sent as it is.
    Chunk(Seq<u8>),
    /// Wait this many nanoseconds before asking for the next step.
    Wait(nat),
    /// The stream has ended.
    End,
}

/// A fresh stream for `policy` with frames `interval` nanoseconds apart.
pub open spec fn initial_model(policy: TrailerPolicy, interval: nat) -> StreamModel {
    StreamModel {
        policy,
        delay: gif_delay_cs(interval),
        interval,
        phase: StreamPhase::Header,
        pending: None,
    }
}

/// Whether, once frame `index` is sent, a finite file is complete.
pub open spec fn trailer_due(policy: TrailerPolicy, index: u32) -> bool {
    match policy {
        TrailerPolicy::AfterN(n) => index + 1 >= n,
        _ => false,
    }
}

/// The index of the frame after frame `index` (wrapping at `u32::MAX`).
pub open spec fn next_index(index: u32) -> u32 {
    if index == u32::MAX {
        0
    } else {
        (index + 1) as u32
    }
}

/// Whether a finite file has all its frames before frame `index` is sent
/// (only `AfterN(0)` reaches this before its first frame).
pub open spec fn frames_exhausted(policy: TrailerPolicy, index: u32) -> bool {
    match policy {
        TrailerPolicy::AfterN(n) => index >= n,
        _ => false,
    }
}

/// One step of the stream from `m`: the new state and what is handed out.
pub open spec fn stream_step(m: StreamModel) -> (StreamModel, StreamOutput) {
    match m.pending {
        Some(bytes) => (StreamModel { pending: None, ..m }, StreamOutput::Chunk(bytes)),
        None => match m.phase {
            StreamPhase::Done => (m, StreamOutput::End),
            StreamPhase::Header => (
                StreamModel { phase: StreamPhase::Frame { index: 0, waiting: false }, ..m },
                StreamOutput::Chunk(gif_prelude()),
            ),
            StreamPhase::Frame { index, waiting } => {
                if frames_exhausted(m.policy, index) {
                    (
                        StreamModel { phase: StreamPhase::Done, ..m },
                        StreamOutput::Chunk(gif_trailer()),
                    )
                } else if waiting && m.interval != 0 {
                    (
                        StreamModel { phase: StreamPhase::Frame { index, waiting: false }, ..m },
                        StreamOutput::Wait(m.interval),
                    )
                } else if trailer_due(m.policy, index) {
                    (
                        StreamModel {
                            phase: StreamPhase::Done,
                            pending: Some(gif_trailer()),
                            ..m
                        },
                        StreamOutput::Chunk(frame_block(index, m.delay)),
                    )
                } else {
                    (
                        StreamModel {
                            phase: StreamPhase::Frame { index: next_index(index), waiting: true },
                            ..m
                        },
                        StreamOutput::Chunk(frame_block(index, m.delay)),
                    )
                }
            },
        },
    }
}

/// The states a byte stream can be in: a pending chunk is only ever the
/// trailer of a finite file that is complete.
pub open spec fn stream_model_wf(m: StreamModel) -> bool {
    &&& m.delay == gif_delay_cs(m.interval)
    &&& m.pending matches Some(bytes) ==> bytes == gif_trailer() && m.phase is Done
        && m.policy is AfterN
}

/// One step's result, handed to the transport that runs the stream.
pub enum StreamAction {
    /// Send these bytes as one chunk of the body.
    Chunk(Vec<u8>),
    /// Wait this long, then ask for the next step.
    Wait(Interval),
    /// The body is complete.
    End,
}

impl StreamAction {
    /// The action as the contracts describe it.
    pub open spec fn output(self) -> StreamOutput {
        match self {
            StreamAction::Chunk(bytes) => StreamOutput::Chunk(bytes@),
            StreamAction::Wait(interval) => StreamOutput::Wait(interval@),
            StreamAction::End => StreamOutput::End,
        }
    }
}

enum Phase {
    Header,
    Frame { encoder: GifEncoder, frame_index: u32, waiting: bool },
    Done,
}

/// GIF bytes produced one chunk at a time: the prelude, then one chunk per
/// frame, then (for a finite file) the trailer. The transport calls
/// `advance` for each chunk and waits when told to.
pub struct GifByteStream {
    generator: FrameGenerator,
    interval: Interval,
    policy: TrailerPolicy,
    frame_delay_cs: u16,
    phase: Phase,
    pending: Option<Vec<u8>>,
}

impl GifByteStream {
    #[verifier::type_invariant]
    spec fn well_formed(self) -> bool {
        &&& self.frame_delay_cs == gif_delay_cs(self.interval@)
        &&& self.phase matches Phase::Frame { encoder, .. } ==> gif_written(encoder)
            == Seq::<u8>::empty() && gif_has_global_palette(encoder)
        &&& self.pending matches Some(bytes) ==> bytes@ == gif_trailer() && self.phase is Done
            && self.policy is AfterN
    }

    /// The state of the stream.
    pub closed spec fn model(&self) -> StreamModel {
        StreamModel {
            policy: self.policy,
            delay: self.frame_delay_cs,
            interval: self.interval@,
            phase: match self.phase {
                Phase::Header => StreamPhase::Header,
                Phase::Frame { frame_index, waiting, .. } => StreamPhase::Frame {
                    index: frame_index,
                    waiting,
                },
                Phase::Done => StreamPhase::Done,
            },
            pending: match self.pending {
                Some(bytes) => Some(bytes@),
                None => None,
            },
        }
    }

    fn new(config: GifStream) -> (r: Self)
        ensures
            r.model() == initial_model(config.policy(), config.interval()@),
    {
        proof {
            use_type_invariant(&config);
        }
        GifByteStream {
            generator: FrameGenerator::new(),
            interval: config.interval,
            policy: config.policy,
            frame_delay_cs: config.frame_delay_cs,
            phase: Phase::Header,
            pending: None,
        }
    }

    /// Produces the next step of the stream.
    pub fn advance(&mut self) -> (out: StreamAction)
        ensures
            stream_model_wf(final(self).model()),
            (final(self).model(), out.output()) == stream_step(old(self).model()),
    {
        proof {
            use_type_invariant(&*self);
        }
        let mut pending: Option<Vec<u8>> = None;
        std::mem::swap(&mut pending, &mut self.pending);
        if let Some(chunk) = pending {
            return StreamAction::Chunk(chunk);
        }
        let mut phase = Phase::Done;
        std::mem::swap(&mut phase, &mut self.phase);
        match phase {
            Phase::Done => StreamAction::End,
            Phase::Header => {
                let mut encoder = match gif_encoder_new(WIDTH, HEIGHT, GLOBAL_PALETTE.as_slice()) {
                    Ok(encoder) => encoder,
                    Err(_) => return vstd::pervasive::unreached(),
                };
                assert(GLOBAL_PALETTE@ == global_palette());
                match gif_set_repeat(&mut encoder, gif::Repeat::Infinite) {
                    Ok(()) => {},
                    Err(_) => return vstd::pervasive::unreached(),
                }
                let chunk = gif_take_written(&mut encoder);
                self.phase = Phase::Frame { encoder, frame_index: 0, waiting: false };
                StreamAction::Chunk(chunk)
            },
            Phase::Frame { encoder, frame_index, waiting } => {
                let mut encoder = encoder;
                let exhausted: bool = match self.policy {
                    TrailerPolicy::AfterN(n) => frame_index >= n,
                    TrailerPolicy::Never | TrailerPolicy::OnDrop => false,
                };
                if exhausted {
                    return match gif_finish(encoder) {
                        Ok(trailer) => StreamAction::Chunk(trailer),
                        Err(_) => vstd::pervasive::unreached(),
                    };
                }
                if waiting && !self.interval.is_zero() {
                    self.phase = Phase::Frame { encoder, frame_index, waiting: false };
                    return StreamAction::Wait(self.interval);
                }
                match write_frame(&mut encoder, &self.generator, frame_index, self.frame_delay_cs) {
                    Ok(()) => {},
                    Err(_) => return vstd::pervasive::unreached(),
                }
                let chunk = gif_take_written(&mut encoder);
                let due: bool = match self.policy {
                    TrailerPolicy::AfterN(n) => frame_index as u64 + 1 >= n as u64,
                    TrailerPolicy::Never | TrailerPolicy::OnDrop => false,
                };
                if due {
                    match gif_finish(encoder) {
                        Ok(trailer) => {
                            if trailer.len() > 0 {
                                self.pending = Some(trailer);
                            }
                        },
                        Err(_) => return vstd::pervasive::unreached(),
                    }
                    return StreamAction::Chunk(chunk);
                }
                self.phase = Phase::Frame {
                    encoder,
                    frame_index: frame_index.wrapping_add(1),
                    waiting: true,
                };
                StreamAction::Chunk(chunk)
            },
        }
    }
}

} // verus!
