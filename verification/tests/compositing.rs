use pixel_ui::color::Color;
use pixel_ui::draw::write_all;
use pixel_ui::util::BoundingBox;
use pixel_ui::util::IVec2;
use pixel_ui::util::UVec2;

fn black_frame(width: usize, height: usize) -> Vec<Color> {
    let mut buf = Vec::new();
    for _ in 0..width * height {
        buf.push(Color::black());
    }
    buf
}

#[test]
fn blit_writes_exactly_the_intersection() {
    // A 20x20 white buffer at offset (5,5) into a 10x10 frame: only the 5x5
    // bottom-right region is written.
    let mut frame = black_frame(10, 10);
    let bounds = BoundingBox::from_size(IVec2::new(5, 5), UVec2::new(20, 20));
    let mut content = Vec::new();
    for _ in 0..400 {
        content.push(Color::white());
    }
    write_all(&mut frame, 10, 10, bounds, content);
    for y in 0..10 {
        for x in 0..10 {
            let expected = if x >= 5 && y >= 5 { Color::white() } else { Color::black() };
            assert_eq!(frame[y * 10 + x], expected, "pixel ({}, {})", x, y);
        }
    }
}

#[test]
fn blit_clips_negative_offsets() {
    let mut frame = black_frame(4, 4);
    let bounds = BoundingBox::from_size(IVec2::new(-1, -1), UVec2::new(2, 2));
    let content = vec![Color::white(), Color::white(), Color::white(), Color::white()];
    write_all(&mut frame, 4, 4, bounds, content);
    for y in 0..4 {
        for x in 0..4 {
            let expected = if x == 0 && y == 0 { Color::white() } else { Color::black() };
            assert_eq!(frame[y * 4 + x], expected);
        }
    }
}

#[test]
fn blit_skipped_when_entirely_off_frame() {
    let mut frame = black_frame(4, 4);
    let bounds = BoundingBox::from_size(IVec2::new(-10, -10), UVec2::new(2, 2));
    let content = vec![Color::white(), Color::white(), Color::white(), Color::white()];
    write_all(&mut frame, 4, 4, bounds, content);
    for i in 0..16 {
        assert_eq!(frame[i], Color::black());
    }
}

#[test]
fn blit_skipped_on_pixel_count_mismatch() {
    // A malformed widget buffer must not corrupt any pixel.
    let mut frame = black_frame(4, 4);
    let bounds = BoundingBox::from_size(IVec2::new(0, 0), UVec2::new(2, 2));
    let content = vec![Color::white(); 3];
    write_all(&mut frame, 4, 4, bounds, content);
    for i in 0..16 {
        assert_eq!(frame[i], Color::black());
    }
}

#[test]
fn write_sets_one_pixel_and_drops_outside() {
    let mut frame = black_frame(3, 3);
    pixel_ui::draw::write(&mut frame, 3, 3, IVec2::new(1, 2), Color::white());
    for y in 0..3 {
        for x in 0..3 {
            let expected = if x == 1 && y == 2 { Color::white() } else { Color::black() };
            assert_eq!(frame[y * 3 + x], expected);
        }
    }
    pixel_ui::draw::write(&mut frame, 3, 3, IVec2::new(-1, 0), Color::white());
    pixel_ui::draw::write(&mut frame, 3, 3, IVec2::new(0, 3), Color::white());
    assert_eq!(frame[0], Color::black());
}
