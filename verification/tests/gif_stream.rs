use std::io::Cursor;

use streaming_gif::frames::FrameGenerator;
use streaming_gif::gif_stream::{
    duration_to_gif_delay, GifByteStream, GifStream, Interval, StreamAction, TrailerPolicy,
};

fn count_decoded_frames(bytes: &[u8]) -> usize {
    decoded_frames(bytes).len()
}

fn decoded_frames(bytes: &[u8]) -> Vec<(u16, Vec<u8>)> {
    let mut options = gif::DecodeOptions::new();
    options.set_color_output(gif::ColorOutput::Indexed);
    let mut decoder = options.read_info(Cursor::new(bytes)).expect("decode header");
    let mut frames = Vec::new();
    while let Some(frame) = decoder.read_next_frame().expect("decode frame") {
        frames.push((frame.delay, frame.buffer.to_vec()));
    }
    frames
}

/// Runs a stream to its end (or `limit` steps), returning the chunks and
/// how many waits it asked for.
fn drain_stream(stream: &mut GifByteStream, limit: usize) -> (Vec<Vec<u8>>, usize, bool) {
    let mut chunks = Vec::new();
    let mut waits = 0;
    for _ in 0..limit {
        match stream.advance() {
            StreamAction::Chunk(bytes) => chunks.push(bytes),
            StreamAction::Wait(_) => waits += 1,
            StreamAction::End => return (chunks, waits, true),
        }
    }
    (chunks, waits, false)
}

const PRELUDE: [u8; 38] = [
    b'G', b'I', b'F', b'8', b'9', b'a', // signature
    64, 0, 64, 0, 0x80, 0, 0, // screen descriptor
    0, 0, 0, 255, 255, 255, // global palette
    0x21, 0xFF, 0x0B, b'N', b'E', b'T', b'S', b'C', b'A', b'P', b'E', b'2', b'.', b'0', 3, 1, 0,
    0, 0, // loop forever
];

#[test]
fn after_n_starts_with_gif89a_and_ends_with_trailer() {
    let stream = GifStream::new(Interval::zero(), TrailerPolicy::AfterN(10));
    let bytes = stream.encode_to_vec(10).expect("encode");
    assert!(bytes.starts_with(b"GIF89a"), "missing GIF89a header");
    assert_eq!(*bytes.last().unwrap(), 0x3B, "missing trailer");
}

#[test]
fn never_starts_with_gif89a_and_has_no_trailer() {
    let stream = GifStream::new(Interval::zero(), TrailerPolicy::Never);
    let bytes = stream.encode_to_vec(3).expect("encode");
    assert!(bytes.starts_with(b"GIF89a"), "missing GIF89a header");
    assert_ne!(*bytes.last().unwrap(), 0x3B, "unexpected trailer under Never");
}

#[test]
fn after_n_grows_with_each_additional_frame() {
    let one = GifStream::new(Interval::zero(), TrailerPolicy::AfterN(1))
        .encode_to_vec(1)
        .expect("encode 1");
    let two = GifStream::new(Interval::zero(), TrailerPolicy::AfterN(2))
        .encode_to_vec(2)
        .expect("encode 2");
    assert!(two.len() > one.len(), "expected more bytes for more frames");
}

#[test]
fn after_n_encode_to_vec_decodes_to_exactly_ten_frames() {
    let bytes = GifStream::new(Interval::zero(), TrailerPolicy::AfterN(10))
        .encode_to_vec(10)
        .expect("encode");
    assert_eq!(*bytes.last().unwrap(), 0x3B, "missing trailer");
    assert_eq!(count_decoded_frames(&bytes), 10);
}

#[test]
fn after_n_byte_stream_decodes_to_exactly_ten_frames() {
    let mut stream = GifStream::new(Interval::zero(), TrailerPolicy::AfterN(10)).into_byte_stream();
    let (chunks, waits, ended) = drain_stream(&mut stream, 100);
    assert!(ended, "finite stream must end");
    assert_eq!(waits, 0);
    let bytes: Vec<u8> = chunks.into_iter().flatten().collect();
    assert!(bytes.starts_with(b"GIF89a"), "missing GIF89a header");
    assert_eq!(*bytes.last().unwrap(), 0x3B, "missing trailer");
    assert_eq!(count_decoded_frames(&bytes), 10);
}

#[test]
fn never_byte_stream_emits_more_than_ten_chunks_without_trailer_or_end() {
    // Header + 12 frames = 13 chunks (more than AfterN(10) would emit).
    const CHUNK_COUNT: usize = 13;
    let mut stream = GifStream::new(Interval::zero(), TrailerPolicy::Never).into_byte_stream();
    let (chunks, waits, ended) = drain_stream(&mut stream, CHUNK_COUNT);
    assert!(!ended, "Never stream must keep yielding");
    assert_eq!(waits, 0);
    assert_eq!(chunks.len(), CHUNK_COUNT);
    let bytes: Vec<u8> = chunks.into_iter().flatten().collect();
    assert!(bytes.starts_with(b"GIF89a"), "missing GIF89a header");
    assert_ne!(*bytes.last().unwrap(), 0x3B, "Never must not emit trailer");
    match stream.advance() {
        StreamAction::End => panic!("Never stream must not end"),
        StreamAction::Chunk(_) | StreamAction::Wait(_) => {}
    }
}

#[test]
fn encoded_file_starts_with_the_exact_prelude() {
    let bytes = GifStream::new(Interval::zero(), TrailerPolicy::AfterN(0))
        .encode_to_vec(5)
        .expect("encode");
    // AfterN(0): prelude then trailer, no frame (max_frames is ignored).
    let mut expected = PRELUDE.to_vec();
    expected.push(0x3B);
    assert_eq!(bytes, expected);
    let never = GifStream::new(Interval::zero(), TrailerPolicy::Never).encode_to_vec(0).unwrap();
    assert_eq!(never, PRELUDE.to_vec());
}

#[test]
fn frame_chunk_is_control_extension_descriptor_and_image_data() {
    let mut stream =
        GifStream::new(Interval::from_millis(1000), TrailerPolicy::AfterN(2)).into_byte_stream();
    let prelude = match stream.advance() {
        StreamAction::Chunk(bytes) => bytes,
        _ => panic!("expected the prelude"),
    };
    assert_eq!(prelude, PRELUDE.to_vec());
    let frame = match stream.advance() {
        StreamAction::Chunk(bytes) => bytes,
        _ => panic!("expected the first frame"),
    };
    // Graphic control: disposal keep, delay 100 cs, no transparency.
    assert_eq!(&frame[..8], &[0x21, 0xF9, 0x04, 0x04, 100, 0, 0, 0]);
    // Image descriptor: 64x64 at the origin, global palette.
    assert_eq!(&frame[8..18], &[0x2C, 0, 0, 0, 0, 64, 0, 64, 0, 0]);
    // LZW minimum code size for a two-colour image, then data sub-blocks.
    assert_eq!(frame[18], 2);
    assert_eq!(*frame.last().unwrap(), 0);
    // The next frame waits for the interval first.
    match stream.advance() {
        StreamAction::Wait(interval) => assert_eq!(interval.as_millis(), 1000),
        _ => panic!("expected a wait"),
    }
    assert!(matches!(stream.advance(), StreamAction::Chunk(_)));
    match stream.advance() {
        StreamAction::Chunk(bytes) => assert_eq!(bytes, vec![0x3B]),
        _ => panic!("expected the trailer"),
    }
    assert!(matches!(stream.advance(), StreamAction::End));
    assert!(matches!(stream.advance(), StreamAction::End));
}

#[test]
fn finite_stream_sends_exactly_the_encoded_file() {
    for interval in [Interval::zero(), Interval::from_millis(250)] {
        for n in [1u32, 2, 5] {
            let config = GifStream::new(interval, TrailerPolicy::AfterN(n));
            let file = config.encode_to_vec(0).expect("encode");
            let mut stream = config.clone().into_byte_stream();
            let (chunks, waits, ended) = drain_stream(&mut stream, 100);
            assert!(ended);
            // prelude + one chunk per frame + trailer
            assert_eq!(chunks.len(), n as usize + 2);
            assert_eq!(waits, if interval.is_zero() { 0 } else { n as usize - 1 });
            let bytes: Vec<u8> = chunks.into_iter().flatten().collect();
            assert_eq!(bytes, file);
        }
    }
}

#[test]
fn open_stream_prefix_is_the_open_file_of_that_many_frames() {
    for k in [0u32, 1, 4] {
        let config = GifStream::new(Interval::from_millis(100), TrailerPolicy::Never);
        let file = config.encode_to_vec(k).expect("encode");
        let mut stream = config.into_byte_stream();
        let (chunks, _, ended) = drain_stream(&mut stream, 1 + 2 * k as usize);
        assert!(!ended);
        let bytes: Vec<u8> = chunks.into_iter().flatten().collect();
        assert_eq!(bytes, file);
    }
}

#[test]
fn on_drop_file_is_closed_but_stream_never_ends() {
    let config = GifStream::new(Interval::zero(), TrailerPolicy::OnDrop);
    let bytes = config.encode_to_vec(3).expect("encode");
    assert_eq!(*bytes.last().unwrap(), 0x3B);
    assert_eq!(count_decoded_frames(&bytes), 3);
    let mut stream = config.into_byte_stream();
    let (chunks, _, ended) = drain_stream(&mut stream, 30);
    assert!(!ended);
    assert!(chunks.iter().all(|c| *c.last().unwrap() == 0));
}

#[test]
fn after_zero_stream_sends_no_frame() {
    for interval in [Interval::zero(), Interval::from_millis(500)] {
        let config = GifStream::new(interval, TrailerPolicy::AfterN(0));
        let file = config.encode_to_vec(7).expect("encode");
        let mut stream = config.into_byte_stream();
        let (chunks, waits, ended) = drain_stream(&mut stream, 10);
        assert!(ended);
        assert_eq!(waits, 0);
        assert_eq!(chunks.len(), 2);
        assert_eq!(chunks[0], PRELUDE.to_vec());
        assert_eq!(chunks[1], vec![0x3B]);
        let bytes: Vec<u8> = chunks.into_iter().flatten().collect();
        assert_eq!(bytes, file);
        assert_eq!(count_decoded_frames(&bytes), 0);
    }
}

#[test]
fn trailer_follows_the_last_frame_without_a_wait() {
    let mut stream =
        GifStream::new(Interval::from_secs(1), TrailerPolicy::AfterN(1)).into_byte_stream();
    assert!(matches!(stream.advance(), StreamAction::Chunk(_)));
    assert!(matches!(stream.advance(), StreamAction::Chunk(_)));
    match stream.advance() {
        StreamAction::Chunk(bytes) => assert_eq!(bytes, vec![0x3B]),
        _ => panic!("expected the trailer at once"),
    }
    assert!(matches!(stream.advance(), StreamAction::End));
}

#[test]
fn encoding_never_fails_and_ignores_max_frames_for_after_n() {
    let config = GifStream::new(Interval::from_millis(40), TrailerPolicy::AfterN(3));
    let a = config.encode_to_vec(0).expect("encode");
    let b = config.encode_to_vec(99).expect("encode");
    assert_eq!(a, b);
    let never = GifStream::new(Interval::from_millis(40), TrailerPolicy::Never)
        .encode_to_vec(3)
        .expect("encode");
    let on_drop = GifStream::new(Interval::from_millis(40), TrailerPolicy::OnDrop)
        .encode_to_vec(3)
        .expect("encode");
    let mut closed = never.clone();
    closed.push(0x3B);
    assert_eq!(on_drop, closed);
    assert_eq!(a, on_drop);
}

#[test]
fn decoded_frames_carry_the_generated_pixels_and_delay() {
    let bytes = GifStream::new(Interval::from_millis(250), TrailerPolicy::AfterN(4))
        .encode_to_vec(0)
        .expect("encode");
    let frames = decoded_frames(&bytes);
    let generator = FrameGenerator::new();
    assert_eq!(frames.len(), 4);
    for (n, (delay, pixels)) in frames.into_iter().enumerate() {
        assert_eq!(delay, 25);
        assert_eq!(pixels, generator.generate(n as u32));
    }
}

#[test]
fn gif_delay_follows_the_interval() {
    assert_eq!(duration_to_gif_delay(&Interval::zero()), 0);
    assert_eq!(duration_to_gif_delay(&Interval::new(0, 1)), 1);
    assert_eq!(duration_to_gif_delay(&Interval::from_millis(1)), 1);
    assert_eq!(duration_to_gif_delay(&Interval::from_millis(9)), 1);
    assert_eq!(duration_to_gif_delay(&Interval::from_millis(25)), 2);
    assert_eq!(duration_to_gif_delay(&Interval::from_millis(100)), 10);
    assert_eq!(duration_to_gif_delay(&Interval::from_secs(1)), 100);
    assert_eq!(duration_to_gif_delay(&Interval::from_secs(655)), 65500);
    assert_eq!(duration_to_gif_delay(&Interval::from_secs(656)), 65535);
    assert_eq!(duration_to_gif_delay(&Interval::from_secs(u64::MAX)), 65535);
}

#[test]
fn interval_keeps_seconds_and_nanoseconds() {
    let i = Interval::new(3, 2_500_000_000);
    assert_eq!(i.as_secs(), 5);
    assert_eq!(i.subsec_nanos(), 500_000_000);
    assert_eq!(i.as_millis(), 5500);
    assert!(!i.is_zero());
    let m = Interval::from_millis(1234);
    assert_eq!(m.as_secs(), 1);
    assert_eq!(m.subsec_nanos(), 234_000_000);
    assert!(Interval::zero().is_zero());
    assert_eq!(Interval::from_secs(7).as_millis(), 7000);
}
