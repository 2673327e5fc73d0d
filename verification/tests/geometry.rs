use pixel_ui::color::Color;
use pixel_ui::draw::Line;
use pixel_ui::util::BoundingBox;
use pixel_ui::util::IVec2;
use pixel_ui::util::UVec2;
use pixel_ui::util::u8_to_bool_vec;

#[test]
fn bbox_new_orders_corners() {
    let b = BoundingBox::new(7, -2, 3, 9);
    assert_eq!(b.get_min(), IVec2::new(3, -2));
    assert_eq!(b.get_max(), IVec2::new(7, 9));
}

#[test]
fn bbox_from_size_spans_origin_plus_size() {
    let b = BoundingBox::from_size(IVec2::new(300, 180), UVec2::new(60, 25));
    assert_eq!(b.get_min(), IVec2::new(300, 180));
    assert_eq!(b.get_max(), IVec2::new(360, 205));
    assert_eq!(b.size(), UVec2::new(60, 25));
    assert_eq!(b.area(), 1500);
}

#[test]
fn bbox_containment_is_half_open() {
    let b = BoundingBox::from_size(IVec2::new(300, 180), UVec2::new(60, 25));
    assert!(b.intersects(IVec2::new(310, 190)));
    assert!(b.intersects(IVec2::new(300, 180)));
    assert!(!b.intersects(IVec2::new(360, 190)));
    assert!(!b.intersects(IVec2::new(310, 205)));
    assert!(!b.intersects(IVec2::new(1, 1)));
}

#[test]
fn vec_areas() {
    assert_eq!(UVec2::new(3, 4).area(), 12);
    assert_eq!(IVec2::new(-3, 4).area(), 12);
    assert_eq!(IVec2::new(-3, -4).area(), 12);
}

#[test]
fn unpack_bits_lsb_first() {
    let bits = u8_to_bool_vec(&vec![0b0000_0101u8, 0b1000_0000u8]);
    assert_eq!(bits.len(), 16);
    assert!(bits[0]);
    assert!(!bits[1]);
    assert!(bits[2]);
    for i in 3..15 {
        assert!(!bits[i]);
    }
    assert!(bits[15]);
}

#[test]
fn line_clamped_forces_endpoints_into_box() {
    let bounds = BoundingBox::new(0, 0, 10, 10);
    let line = Line::new(IVec2::new(-5, 3), IVec2::new(20, 12)).clamped(bounds);
    let bounds2 = BoundingBox::new(0, 0, 10, 10);
    let mut line2 = Line::new(IVec2::new(-5, 3), IVec2::new(20, 12));
    line2.clamp(bounds2);
    assert_eq!(line, line2);
}

#[test]
fn color_pixels_and_inversion() {
    assert_eq!(Color::white().to_pixel(), 0x00FF_FFFF);
    assert_eq!(Color::black().to_pixel(), 0x0000_0000);
    assert_eq!(Color::new(true), Color::white());
    assert_eq!(Color::white().invert(), Color::black());
    assert_eq!(Color::black().invert(), Color::white());
}
