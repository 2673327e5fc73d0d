use pixel_ui::color::Color;
use pixel_ui::element::button::Button;
use pixel_ui::element::canvas::Canvas;
use pixel_ui::element::icon::BadIcon;
use pixel_ui::element::icon::BmpError;
use pixel_ui::element::icon::Icon;
use pixel_ui::element::rect::Rect;
use pixel_ui::event::ButtonState;
use pixel_ui::event::Event;
use pixel_ui::event::Modifiers;
use pixel_ui::event::MouseButton;
use pixel_ui::event::MouseEvent;
use pixel_ui::util::BoundingBox;
use pixel_ui::util::IVec2;
use pixel_ui::util::UVec2;

fn left_click(state: ButtonState) -> Event {
    Event::Mouse(MouseEvent {
        pos: IVec2::new(0, 0),
        modifiers: Modifiers::default(),
        state,
        button: MouseButton::Left,
    })
}

#[test]
fn rect_draws_solid_fill() {
    let rect = Rect::new(3, 2, Color::white());
    let (buf, size) = rect.draw();
    assert_eq!(size, UVec2::new(3, 2));
    assert_eq!(buf.len(), 6);
    for pixel in buf {
        assert_eq!(pixel, Color::white());
    }
}

#[test]
fn button_draws_two_pixel_border() {
    let button = Button::new(6, 6, Color::black());
    let (buf, size) = button.draw();
    assert_eq!(size, UVec2::new(6, 6));
    assert_eq!(buf.len(), 36);
    for y in 0..6 {
        for x in 0..6 {
            let border = x < 2 || x >= 4 || y < 2 || y >= 4;
            let expected = if border { Color::white() } else { Color::black() };
            assert_eq!(buf[y * 6 + x], expected, "pixel ({}, {})", x, y);
        }
    }
}

#[test]
fn button_depressed_swaps_fill() {
    let mut button = Button::new(6, 6, Color::black());
    button.update(&left_click(ButtonState::Pressed));
    assert!(button.is_depressed());
    let (buf, _) = button.draw();
    // Border stays inverted; the fill inverts with it while depressed.
    assert_eq!(buf[0], Color::white());
    assert_eq!(buf[2 * 6 + 2], Color::white());
}

#[test]
fn button_too_small_for_border_is_one_color() {
    let button = Button::new(3, 3, Color::black());
    let (buf, _) = button.draw();
    for pixel in buf {
        assert_eq!(pixel, Color::white());
    }
    let mut pressed = Button::new(3, 3, Color::black());
    pressed.update(&left_click(ButtonState::Pressed));
    let (buf2, _) = pressed.draw();
    for pixel in buf2 {
        assert_eq!(pixel, Color::black());
    }
}

#[test]
fn button_ignores_other_buttons_and_events() {
    let mut button = Button::new(6, 6, Color::black());
    button.update(&Event::Mouse(MouseEvent {
        pos: IVec2::new(0, 0),
        modifiers: Modifiers::default(),
        state: ButtonState::Pressed,
        button: MouseButton::Right,
    }));
    assert!(!button.is_depressed());
}

#[test]
fn canvas_pixel_rect_and_fill() {
    let canvas = Canvas::new(8, 8);
    let (buf, _) = canvas.draw();
    assert_eq!(buf.len(), 64);
    for pixel in &buf {
        assert_eq!(*pixel, Color::black());
    }

    let mut ctx = canvas.get_context();
    ctx.pixel(UVec2::new(3, 1), true);
    ctx.pixel(UVec2::new(9, 0), true);  // outside: dropped
    let mut canvas = canvas;
    canvas.set_context(ctx);
    let (buf, _) = canvas.draw();
    for y in 0..8 {
        for x in 0..8 {
            let expected = if x == 3 && y == 1 { Color::white() } else { Color::black() };
            assert_eq!(buf[y * 8 + x], expected, "pixel ({}, {})", x, y);
        }
    }

    let mut ctx = canvas.get_context();
    ctx.fill(false);
    ctx.rect(BoundingBox::new(2, 2, 4, 4), true);
    canvas.set_context(ctx);
    let (buf, _) = canvas.draw();
    for y in 0..8 {
        for x in 0..8 {
            // The rectangle is clamped and max-inclusive.
            let expected = if (2..=4).contains(&x) && (2..=4).contains(&y) {
                Color::white()
            } else {
                Color::black()
            };
            assert_eq!(buf[y * 8 + x], expected, "pixel ({}, {})", x, y);
        }
    }
}

#[test]
fn icon_draw_returns_decoded_pixels() {
    let pixels = vec![Color::white(), Color::black(), Color::black(), Color::white()];
    let icon = Icon::new(2, 2, pixels.clone()).unwrap();
    assert_eq!(icon.get_size(), UVec2::new(2, 2));
    let (buf, size) = icon.draw();
    assert_eq!(size, UVec2::new(2, 2));
    assert_eq!(buf, pixels);
}

#[test]
fn icon_rejects_wrong_pixel_count() {
    let pixels = vec![Color::white(); 3];
    match Icon::new(2, 2, pixels) {
        Err(BadIcon::Bmp(BmpError::WrongFormat)) => {},
        _ => panic!("a mismatched buffer must be rejected"),
    }
}
