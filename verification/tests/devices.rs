use blaze64::byte_builder::{read_i32, ByteBuilder};
use blaze64::driver::audio::sample_queue::SampleQueue;
use blaze64::driver::audio::split_sample;
use blaze64::driver::input::{scalable_snapshot, InputEvent, InputSnapshot, InputState};
use blaze64::driver::screen::{byte_to_rgb, framebuffer_rgba, FRAMEBUFFER_SIZE};
use blaze64::graphics::color::{
    add, average, divide, mask, multiply, pixel_to_rgb, rgb_to_pixel_clamped, split_color, subtract,
};
use blaze64::input::{normalize_coordinate, MouseState};
use blaze64::mut_cell::MutCell;
use blaze64::option_cell::OptionCell;

#[test]
fn byte_builder_little_endian() {
    let bytes = ByteBuilder::new().u16(0x1234).u16(7).u8(0xAB).i32(-2).build();
    assert_eq!(bytes, vec![0x34, 0x12, 7, 0, 0xAB, 0xFE, 0xFF, 0xFF, 0xFF]);
    assert_eq!(ByteBuilder::new().build(), Vec::<u8>::new());
}

#[test]
fn read_i32_reads_back_written_values() {
    let bytes = ByteBuilder::new().i32(-123456).i32(i32::MAX).i32(7).build();
    assert_eq!(read_i32(&bytes, 0), -123456);
    assert_eq!(read_i32(&bytes, 1), i32::MAX);
    assert_eq!(read_i32(&bytes, 2), 7);
    assert_eq!(read_i32(&[1, 2, 3, 4], 0), 0x0403_0201);
}

#[test]
fn color_split_and_channels() {
    assert_eq!(split_color(0xAB12), (0x12, 0xAB));
    assert_eq!(pixel_to_rgb(0b101_110_11), (5, 6, 3));
    assert_eq!(rgb_to_pixel_clamped(5, 6, 3), 0b101_110_11);
    assert_eq!(rgb_to_pixel_clamped(9, 200, 4), 0xFF);
    for p in 0..=255u8 {
        let (r, g, b) = pixel_to_rgb(p);
        assert_eq!(rgb_to_pixel_clamped(r, g, b), p);
    }
}

#[test]
fn color_blending() {
    let a = rgb_to_pixel_clamped(3, 4, 1);
    let b = rgb_to_pixel_clamped(5, 2, 2);
    assert_eq!(pixel_to_rgb(add(a, b)), (7, 6, 3));
    assert_eq!(pixel_to_rgb(subtract(b, rgb_to_pixel_clamped(1, 2, 1))), (4, 0, 1));
    assert_eq!(pixel_to_rgb(multiply(a, b)), (7, 7, 2));
    assert_eq!(pixel_to_rgb(multiply(rgb_to_pixel_clamped(1, 2, 1), rgb_to_pixel_clamped(2, 3, 1))), (2, 6, 1));
    assert_eq!(pixel_to_rgb(divide(b, rgb_to_pixel_clamped(2, 2, 1))), (2, 1, 2));
    assert_eq!(pixel_to_rgb(average(a, b)), (4, 3, 1));
    assert_eq!(average(a, a), a);
    assert_eq!(add(a, 0), a);
    assert_eq!(subtract(a, a), 0);
    assert_eq!(mask(0b1111_0000, 0b1010_1010, 0b1100_1100, 0b0110_0110), 0b1100_1000);
}

#[test]
fn screen_colors() {
    assert_eq!(byte_to_rgb(0), (0, 0, 0));
    assert_eq!(byte_to_rgb(0xFF), (255, 255, 255));
    assert_eq!(byte_to_rgb(0b100_010_01), (148, 74, 85));
}

#[test]
fn framebuffer_conversion() {
    let rgba = framebuffer_rgba(&[0xFF, 0b000_000_10]);
    assert_eq!(rgba.len(), FRAMEBUFFER_SIZE * 4);
    assert_eq!(&rgba[0..8], &[255, 255, 255, 255, 0, 0, 170, 255]);
    assert!(rgba[8..].iter().all(|&b| b == 0));

    let full = vec![0b111_000_00u8; FRAMEBUFFER_SIZE + 5];
    let rgba = framebuffer_rgba(&full);
    assert_eq!(rgba.len(), FRAMEBUFFER_SIZE * 4);
    assert_eq!(&rgba[rgba.len() - 4..], &[255, 0, 0, 255]);
}

#[test]
fn audio_split_sample_scales_by_volume() {
    assert_eq!(split_sample(200, 255, 0), (200, 0));
    assert_eq!(split_sample(255, 128, 51), (128, 51));
    assert_eq!(split_sample(100, 127, 255), (49, 100));
}

#[test]
fn sample_queue_is_first_in_first_out() {
    let mut q = SampleQueue::new();
    assert_eq!(q.pop(), None);
    assert!(q.push_sample(1, 2));
    assert!(q.push_sample(3, 4));
    assert_eq!(q.pop(), Some(1));
    assert_eq!(q.pop(), Some(2));
    assert_eq!(q.pop(), Some(3));
    assert_eq!(q.pop(), Some(4));
    assert_eq!(q.pop(), None);
}

#[test]
fn sample_queue_refuses_a_pair_that_does_not_fit() {
    let mut q = SampleQueue::new();
    for _ in 0..16384u32 {
        assert!(q.push_sample(0, 0));
    }
    // Full: the pair is refused and nothing is stored.
    assert!(!q.push_sample(1, 2));
    assert_eq!(q.pop(), Some(0));
    // One free slot is not enough for a pair.
    assert!(!q.push_sample(5, 6));
    let mut drained = 1;
    while let Some(s) = q.pop() {
        assert_eq!(s, 0);
        drained += 1;
    }
    assert_eq!(drained, 32768);
    assert!(q.push_sample(3, 4));
    assert_eq!(q.pop(), Some(3));
    assert_eq!(q.pop(), Some(4));
    assert_eq!(q.pop(), None);
}

#[test]
fn sample_queue_play_stops_when_full() {
    let mut q = SampleQueue::new();
    assert_eq!(q.play(&[10, 20, 30], 255, 0), 3);
    assert_eq!(q.pop(), Some(10));
    assert_eq!(q.pop(), Some(0));
    assert_eq!(q.pop(), Some(20));
}

#[test]
fn normalize_coordinate_scales_to_framebuffer() {
    assert_eq!(normalize_coordinate(400, 800, 384), 192);
    assert_eq!(normalize_coordinate(799, 800, 384), 383);
    assert_eq!(normalize_coordinate(0, 800, 384), 0);
    assert_eq!(normalize_coordinate(-1, 800, 384), 0);
}

#[test]
fn normalize_coordinate_truncates_toward_zero() {
    // -800 * 384 / 1000 is -307.2, which truncates to -307, or 65229 as a `u16`.
    assert_eq!(normalize_coordinate(-800, 1000, 384), 65229);
    // A negative length flips the sign the same way.
    assert_eq!(normalize_coordinate(800, -1000, 384), 65229);
    assert_eq!(normalize_coordinate(-800, -1000, 384), 307);
}

#[test]
fn mouse_state_update() {
    let mut m = MouseState::new();
    assert_eq!((m.x, m.y), (0, 0));
    m.update(768, 432, 100, 50);
    assert_eq!((m.x, m.y), (50, 25));
}

#[test]
fn input_state_frame_events() {
    let mut state = InputState::new();
    let mut pressed = [false; 7];
    pressed[0] = true;
    pressed[2] = true;
    let mut released = [false; 7];
    released[6] = true;
    let snapshot = InputSnapshot {
        screen_width: 768,
        screen_height: 432,
        mouse_x: 20,
        mouse_y: 10,
        chars: vec!['a', 'é', 'Z'],
        pressed,
        released,
        wheel: -3,
    };
    let events = state.update(&snapshot);
    assert_eq!((state.x, state.y), (10, 5));
    assert_eq!(
        events,
        vec![
            InputEvent::Char(b'a'),
            InputEvent::Char(b'Z'),
            InputEvent::MouseClick { x: 10, y: 5, button: 0 },
            InputEvent::MouseClick { x: 10, y: 5, button: 2 },
            InputEvent::MouseUp { x: 10, y: 5, button: 6 },
            InputEvent::MouseScroll { x: 10, y: 5, wheel: -3 },
        ]
    );
    assert_eq!(events[0].name(), "char");
    assert_eq!(events[0].data(), vec![b'a']);
    assert_eq!(events[2].name(), "mouse_click");
    assert_eq!(events[2].data(), vec![10, 0, 5, 0, 0]);
    assert_eq!(events[4].name(), "mouse_up");
    assert_eq!(events[5].name(), "mouse_scroll");
    assert_eq!(events[5].data(), vec![10, 0, 5, 0, 0xFD, 0xFF, 0xFF, 0xFF]);
}

#[test]
fn input_state_quiet_frame() {
    let mut state = InputState::new();
    let snapshot = InputSnapshot {
        screen_width: 384,
        screen_height: 216,
        mouse_x: 383,
        mouse_y: 0,
        chars: vec![],
        pressed: [false; 7],
        released: [false; 7],
        wheel: 0,
    };
    assert_eq!(state.update(&snapshot), vec![]);
    assert_eq!((state.x, state.y), (383, 0));
}

#[test]
fn cells_hold_their_values() {
    let mut c = OptionCell::new(5u32);
    *c.get_mut() += 1;
    assert_eq!(*c.get(), 6);
    let _empty: OptionCell<u32> = OptionCell::none();
    let m = MutCell::new(vec![1u8, 2]);
    assert_eq!(m.get(), &vec![1u8, 2]);
}

#[test]
fn snapshot_scalability() {
    let mut snapshot = InputSnapshot {
        screen_width: 800,
        screen_height: 600,
        mouse_x: 10,
        mouse_y: 10,
        chars: vec![],
        pressed: [false; 7],
        released: [false; 7],
        wheel: 0,
    };
    assert!(scalable_snapshot(&snapshot));
    snapshot.screen_width = 0;
    assert!(!scalable_snapshot(&snapshot));
    snapshot.screen_width = -800;
    assert!(scalable_snapshot(&snapshot));
    snapshot.screen_width = 800;
    snapshot.mouse_x = i32::MAX / 100;
    assert!(!scalable_snapshot(&snapshot));
}
