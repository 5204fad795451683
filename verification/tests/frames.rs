use streaming_gif::frames::{FrameGenerator, FRAME_PIXELS, GLOBAL_PALETTE, HEIGHT, WIDTH};

#[test]
fn returns_a_buffer_of_4096_palette_indices() {
    let generator = FrameGenerator::new();
    let frame = generator.generate(0);
    assert_eq!(frame.len(), 4096);
}

#[test]
fn uses_only_palette_indices_zero_and_one() {
    let generator = FrameGenerator::new();
    for n in 0..64 {
        let frame = generator.generate(n);
        assert!(
            frame.iter().all(|&i| i == 0 || i == 1),
            "frame {n} contained an index outside {{0,1}}"
        );
    }
}

#[test]
fn places_the_white_block_at_the_left_edge_for_frame_zero() {
    let generator = FrameGenerator::new();
    let frame = generator.generate(0);
    // Block origin (0, 28); top-left pixel of the block.
    assert_eq!(frame[28 * 64 + 0], 1);
    // First column past the 8-wide block is still black.
    assert_eq!(frame[28 * 64 + 8], 0);
    // Background far from the block.
    assert_eq!(frame[0], 0);
}

#[test]
fn moves_the_white_block_one_pixel_right_for_frame_one() {
    let generator = FrameGenerator::new();
    let frame = generator.generate(1);
    // Block origin (1, 28).
    assert_eq!(frame[28 * 64 + 1], 1);
    assert_eq!(frame[28 * 64 + 0], 0);
    assert_eq!(frame[28 * 64 + 9], 0);
}

#[test]
fn frame_has_exactly_sixty_four_white_pixels_in_an_eight_by_eight_square() {
    let generator = FrameGenerator::default();
    for n in [0u32, 5, 56, 57, 63, 64, 1000, u32::MAX] {
        let frame = generator.generate(n);
        assert_eq!(frame.len(), FRAME_PIXELS);
        let x0 = (n % 64) as usize;
        let mut white = 0;
        for y in 0..64usize {
            for x in 0..64usize {
                let inside = (28..36).contains(&y) && (x + 64 - x0) % 64 < 8;
                assert_eq!(frame[y * 64 + x], if inside { 1 } else { 0 }, "frame {n} ({x},{y})");
                if frame[y * 64 + x] == 1 {
                    white += 1;
                }
            }
        }
        assert_eq!(white, 64);
    }
}

#[test]
fn block_wraps_around_the_right_edge() {
    let frame = FrameGenerator::new().generate(60);
    // Columns 60..63 and 0..3 of rows 28..35 are white.
    for y in 28..36 {
        for x in [60usize, 61, 62, 63, 0, 1, 2, 3] {
            assert_eq!(frame[y * 64 + x], 1);
        }
        assert_eq!(frame[y * 64 + 4], 0);
        assert_eq!(frame[y * 64 + 59], 0);
    }
    assert_eq!(frame[27 * 64 + 60], 0);
    assert_eq!(frame[36 * 64 + 60], 0);
}

#[test]
fn scene_repeats_every_sixty_four_frames() {
    let generator = FrameGenerator::new();
    for n in [0u32, 7, 63, 100] {
        assert_eq!(generator.generate(n), generator.generate(n + 64));
    }
}

#[test]
fn each_frame_shifts_the_previous_one_right_by_one_column() {
    let generator = FrameGenerator::new();
    for n in [0u32, 30, 63, 64] {
        let a = generator.generate(n);
        let b = generator.generate(n + 1);
        for y in 0..64usize {
            for x in 0..64usize {
                assert_eq!(b[y * 64 + x], a[y * 64 + (x + 63) % 64]);
            }
        }
    }
}

#[test]
fn frame_constants_describe_a_64_by_64_two_colour_scene() {
    assert_eq!(WIDTH, 64);
    assert_eq!(HEIGHT, 64);
    assert_eq!(FRAME_PIXELS, 4096);
    assert_eq!(GLOBAL_PALETTE, [0, 0, 0, 255, 255, 255]);
}
