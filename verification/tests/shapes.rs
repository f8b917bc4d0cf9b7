use uefi_rs_sample::buffer::Buffer;
use uefi_rs_sample::color::Color;
use uefi_rs_sample::shapes::{Circle, Point2D, Rectangle, Shape, Square, HALF, PIXEL};

const BLACK: Color = Color { red: 0, green: 0, blue: 0 };
const PAINT: Color = Color { red: 12, green: 34, blue: 56 };

/// The point in the top-left corner of pixel `(x, y)`.
fn pixel(x: i64, y: i64) -> Point2D {
    Point2D { x: x * PIXEL, y: y * PIXEL }
}

fn at(buffer: &Buffer, x: usize, y: usize) -> Color {
    buffer.get()[y * buffer.width() + x]
}

fn painted(buffer: &Buffer) -> usize {
    buffer.get().iter().filter(|pixel| **pixel == PAINT).count()
}

fn assert_box(buffer: &Buffer, x_range: (usize, usize), y_range: (usize, usize)) {
    for y in 0..buffer.height() {
        for x in 0..buffer.width() {
            let inside = x_range.0 <= x && x < x_range.1 && y_range.0 <= y && y < y_range.1;
            let expected = if inside { PAINT } else { BLACK };
            assert_eq!(at(buffer, x, y), expected, "pixel ({}, {})", x, y);
        }
    }
}

#[test]
fn square_fills_its_half_open_box() {
    let mut buffer = Buffer::new(20, 20);
    Square::new(10 * PIXEL, pixel(5, 5), PAINT).render(&mut buffer);
    assert_box(&buffer, (5, 15), (5, 15));
    assert_eq!(painted(&buffer), 100);
    assert_eq!(buffer.width(), 20);
    assert_eq!(buffer.height(), 20);
}

#[test]
fn rectangle_fills_its_half_open_box() {
    let mut buffer = Buffer::new(16, 12);
    Rectangle::new(7 * PIXEL, 3 * PIXEL, pixel(2, 4), PAINT).render(&mut buffer);
    assert_box(&buffer, (2, 9), (4, 7));
    assert_eq!(painted(&buffer), 21);
}

#[test]
fn square_is_a_rectangle_with_equal_sides() {
    let mut with_square = Buffer::new(30, 30);
    let mut with_rectangle = Buffer::new(30, 30);
    Square::new(9 * PIXEL, pixel(3, 11), PAINT).render(&mut with_square);
    Rectangle::new(9 * PIXEL, 9 * PIXEL, pixel(3, 11), PAINT).render(&mut with_rectangle);
    assert_eq!(with_square.get(), with_rectangle.get());
}

#[test]
fn shapes_are_clipped_at_the_right_and_bottom_edges() {
    let mut buffer = Buffer::new(10, 8);
    Rectangle::new(100 * PIXEL, 100 * PIXEL, pixel(6, 5), PAINT).render(&mut buffer);
    assert_box(&buffer, (6, 10), (5, 8));

    let mut buffer = Buffer::new(10, 8);
    Square::new(4 * PIXEL, pixel(8, 6), PAINT).render(&mut buffer);
    assert_box(&buffer, (8, 10), (6, 8));
}

#[test]
fn shapes_are_clipped_at_the_left_and_top_edges() {
    let mut buffer = Buffer::new(10, 8);
    Rectangle::new(7 * PIXEL, 5 * PIXEL, pixel(-4, -2), PAINT).render(&mut buffer);
    assert_box(&buffer, (0, 3), (0, 3));

    let mut buffer = Buffer::new(10, 8);
    Square::new(3 * PIXEL, pixel(-3, 0), PAINT).render(&mut buffer);
    assert_eq!(painted(&buffer), 0);
}

#[test]
fn shapes_outside_the_buffer_paint_nothing() {
    for position in [
        pixel(10, 0),
        pixel(0, 8),
        pixel(500, 500),
        pixel(-50, 3),
        pixel(3, -50),
        Point2D { x: i64::MIN, y: i64::MIN },
        Point2D { x: i64::MAX - 3, y: 2 * PIXEL },
    ] {
        let mut buffer = Buffer::new(10, 8);
        Square::new(5 * PIXEL, position, PAINT).render(&mut buffer);
        Rectangle::new(5 * PIXEL, 2 * PIXEL, position, PAINT).render(&mut buffer);
        assert_eq!(painted(&buffer), 0);
    }
}

#[test]
fn empty_shapes_paint_nothing() {
    let mut buffer = Buffer::new(10, 8);
    Square::new(0 * PIXEL, pixel(4, 4), PAINT).render(&mut buffer);
    Rectangle::new(0 * PIXEL, 5 * PIXEL, pixel(4, 4), PAINT).render(&mut buffer);
    Rectangle::new(5 * PIXEL, 0 * PIXEL, pixel(4, 4), PAINT).render(&mut buffer);
    Circle::new(0 * PIXEL, pixel(4, 4), PAINT).render(&mut buffer);
    assert_eq!(painted(&buffer), 0);
}

#[test]
fn a_shape_as_large_as_the_buffer_fills_it() {
    let mut buffer = Buffer::new(13, 7);
    Rectangle::new(13 * PIXEL, 7 * PIXEL, Point2D::default(), PAINT).render(&mut buffer);
    assert_eq!(painted(&buffer), 13 * 7);
}

#[test]
fn default_point_is_the_origin() {
    assert_eq!(Point2D::default(), pixel(0, 0));
}

#[test]
fn later_shapes_paint_over_earlier_ones() {
    let other = Color::new(200, 0, 0);
    let mut buffer = Buffer::new(10, 10);
    Square::new(6 * PIXEL, pixel(0, 0), PAINT).render(&mut buffer);
    Square::new(6 * PIXEL, pixel(4, 4), other).render(&mut buffer);
    for y in 0..10 {
        for x in 0..10 {
            let expected = if x >= 4 && y >= 4 {
                other
            } else if x < 6 && y < 6 {
                PAINT
            } else {
                BLACK
            };
            assert_eq!(at(&buffer, x, y), expected);
        }
    }
}

#[test]
fn circle_fills_the_pixels_within_its_radius() {
    let mut buffer = Buffer::new(20, 20);
    Circle::new(5 * PIXEL, pixel(10, 10), PAINT).render(&mut buffer);
    for y in 0..20i64 {
        for x in 0..20i64 {
            let in_box = (5..15).contains(&x) && (5..15).contains(&y);
            let distance_squared = (x - 10) * (x - 10) + (y - 10) * (y - 10);
            let expected = if in_box && distance_squared <= 25 { PAINT } else { BLACK };
            assert_eq!(at(&buffer, x as usize, y as usize), expected, "pixel ({}, {})", x, y);
        }
    }
}

#[test]
fn circle_rows_have_the_expected_extent() {
    let mut buffer = Buffer::new(20, 20);
    Circle::new(5 * PIXEL, pixel(10, 10), PAINT).render(&mut buffer);
    let row =
        |y: usize| -> Vec<usize> { (0..20).filter(|x| at(&buffer, *x, y) == PAINT).collect() };
    assert_eq!(row(4), Vec::<usize>::new());
    assert_eq!(row(5), vec![10]);
    assert_eq!(row(6), vec![7, 8, 9, 10, 11, 12, 13]);
    assert_eq!(row(7), vec![6, 7, 8, 9, 10, 11, 12, 13, 14]);
    assert_eq!(row(8), vec![6, 7, 8, 9, 10, 11, 12, 13, 14]);
    assert_eq!(row(10), vec![5, 6, 7, 8, 9, 10, 11, 12, 13, 14]);
    assert_eq!(row(13), vec![6, 7, 8, 9, 10, 11, 12, 13, 14]);
    assert_eq!(row(14), vec![7, 8, 9, 10, 11, 12, 13]);
    assert_eq!(row(15), Vec::<usize>::new());
    assert_eq!(painted(&buffer), 79);
}

#[test]
fn circle_includes_the_boundary_inside_its_box_only() {
    let mut buffer = Buffer::new(20, 20);
    Circle::new(5 * PIXEL, pixel(10, 10), PAINT).render(&mut buffer);
    // At distance exactly 5 and inside the bounding box.
    assert_eq!(at(&buffer, 5, 10), PAINT);
    assert_eq!(at(&buffer, 10, 5), PAINT);
    assert_eq!(at(&buffer, 7, 6), PAINT);
    assert_eq!(at(&buffer, 13, 14), PAINT);
    assert_eq!(at(&buffer, 14, 13), PAINT);
    // At distance exactly 5, but on the far edge that the box leaves out.
    assert_eq!(at(&buffer, 15, 10), BLACK);
    assert_eq!(at(&buffer, 10, 15), BLACK);
    // Inside the box, but farther away than 5.
    assert_eq!(at(&buffer, 5, 5), BLACK);
    assert_eq!(at(&buffer, 14, 14), BLACK);
    assert_eq!(at(&buffer, 6, 6), BLACK);
}

#[test]
fn circle_near_the_corner_is_clipped() {
    let mut buffer = Buffer::new(8, 8);
    Circle::new(4 * PIXEL, pixel(1, 0), PAINT).render(&mut buffer);
    for y in 0..8i64 {
        for x in 0..8i64 {
            let in_box = -3 <= x && x < 5 && -4 <= y && y < 4;
            let inside = in_box && (x - 1) * (x - 1) + y * y <= 16;
            let expected = if inside { PAINT } else { BLACK };
            assert_eq!(at(&buffer, x as usize, y as usize), expected, "pixel ({}, {})", x, y);
        }
    }
}

#[test]
fn circle_with_its_center_off_the_buffer_still_reaches_in() {
    let mut buffer = Buffer::new(6, 6);
    Circle::new(5 * PIXEL, pixel(-2, -2), PAINT).render(&mut buffer);
    for y in 0..6i64 {
        for x in 0..6i64 {
            let in_box = x < 3 && y < 3;
            let inside = in_box && (x + 2) * (x + 2) + (y + 2) * (y + 2) <= 25;
            let expected = if inside { PAINT } else { BLACK };
            assert_eq!(at(&buffer, x as usize, y as usize), expected, "pixel ({}, {})", x, y);
        }
    }
    assert_eq!(at(&buffer, 1, 2), PAINT);
    assert_eq!(at(&buffer, 2, 2), BLACK);
}

#[test]
fn circle_of_radius_one() {
    let mut buffer = Buffer::new(5, 5);
    Circle::new(1 * PIXEL, pixel(2, 2), PAINT).render(&mut buffer);
    let lit: Vec<(usize, usize)> = (0..5)
        .flat_map(|y| (0..5).map(move |x| (x, y)))
        .filter(|(x, y)| at(&buffer, *x, *y) == PAINT)
        .collect();
    assert_eq!(lit, vec![(2, 1), (1, 2), (2, 2)]);
}

#[test]
fn rendering_keeps_what_the_shape_does_not_cover() {
    let under = Color::new(9, 9, 9);
    let mut buffer = Buffer::new(12, 12);
    Rectangle::new(12 * PIXEL, 12 * PIXEL, Point2D::default(), under).render(&mut buffer);
    Circle::new(3 * PIXEL, pixel(6, 6), PAINT).render(&mut buffer);
    for y in 0..12i64 {
        for x in 0..12i64 {
            let in_box = (3..9).contains(&x) && (3..9).contains(&y);
            let inside = in_box && (x - 6) * (x - 6) + (y - 6) * (y - 6) <= 9;
            let expected = if inside { PAINT } else { under };
            assert_eq!(at(&buffer, x as usize, y as usize), expected);
        }
    }
}

#[test]
fn constructors_keep_their_arguments() {
    let position = pixel(-7, 9);
    let square = Square::new(3, position, PAINT);
    assert_eq!((square.size, square.position, square.color), (3, position, PAINT));
    let rectangle = Rectangle::new(4, 5, position, PAINT);
    assert_eq!(
        (rectangle.width, rectangle.height, rectangle.position, rectangle.color),
        (4, 5, position, PAINT)
    );
    let circle = Circle::new(6, position, PAINT);
    assert_eq!((circle.radius, circle.position, circle.color), (6, position, PAINT));
}

#[test]
fn units_are_half_pixels() {
    assert_eq!(HALF, 1);
    assert_eq!(PIXEL, 2);
    assert_eq!(pixel(3, 4), Point2D { x: 6, y: 8 });
}

#[test]
fn edges_are_cut_down_to_whole_pixels() {
    // From 1.5 to 3.5 on both axes: columns and rows 1 and 2.
    let mut buffer = Buffer::new(8, 8);
    Square::new(2 * PIXEL, Point2D { x: PIXEL + HALF, y: PIXEL + HALF }, PAINT)
        .render(&mut buffer);
    assert_box(&buffer, (1, 3), (1, 3));

    // From 2 to 4.5 across and from 0.5 to 1 down.
    let mut buffer = Buffer::new(8, 8);
    Rectangle::new(2 * PIXEL + HALF, HALF, Point2D { x: 2 * PIXEL, y: HALF }, PAINT)
        .render(&mut buffer);
    assert_box(&buffer, (2, 4), (0, 1));
}

#[test]
fn the_far_edge_is_cut_down_after_adding_position_and_size() {
    // 1.5 + 1.5 is 3: columns 1 and 2. Cutting both down first would give
    // column 1 alone.
    let mut buffer = Buffer::new(8, 4);
    Rectangle::new(PIXEL + HALF, 4 * PIXEL, Point2D { x: PIXEL + HALF, y: 0 }, PAINT)
        .render(&mut buffer);
    assert_box(&buffer, (1, 3), (0, 4));

    // 0.5 + 0.5 is 1: column 0, though both parts cut down are 0.
    let mut buffer = Buffer::new(8, 4);
    Square::new(HALF, Point2D { x: HALF, y: HALF }, PAINT).render(&mut buffer);
    assert_box(&buffer, (0, 1), (0, 1));

    // -0.5 + 1 is 0.5, which is cut down to 0: nothing is left.
    let mut buffer = Buffer::new(8, 4);
    Square::new(PIXEL, Point2D { x: -HALF, y: 0 }, PAINT).render(&mut buffer);
    assert_eq!(painted(&buffer), 0);

    // -0.5 + 1.5 is 1: column 0.
    let mut buffer = Buffer::new(8, 4);
    Rectangle::new(PIXEL + HALF, PIXEL, Point2D { x: -HALF, y: 0 }, PAINT).render(&mut buffer);
    assert_box(&buffer, (0, 1), (0, 1));
}

#[test]
fn negative_sizes_paint_nothing() {
    let mut buffer = Buffer::new(10, 8);
    Square::new(-3 * PIXEL, pixel(5, 5), PAINT).render(&mut buffer);
    Rectangle::new(-3 * PIXEL, 4 * PIXEL, pixel(5, 2), PAINT).render(&mut buffer);
    Rectangle::new(4 * PIXEL, -HALF, pixel(5, 2), PAINT).render(&mut buffer);
    Rectangle::new(i64::MIN, i64::MIN, pixel(5, 2), PAINT).render(&mut buffer);
    Circle::new(-3 * PIXEL, pixel(5, 5), PAINT).render(&mut buffer);
    Circle::new(-HALF, pixel(5, 5), PAINT).render(&mut buffer);
    Circle::new(i64::MIN, pixel(5, 5), PAINT).render(&mut buffer);
    assert_eq!(painted(&buffer), 0);
}

fn assert_disk(buffer: &Buffer, center: (i64, i64), radius: i64) {
    // In half pixels: pixel (x, y) is the point (2x, 2y).
    let column = |halves: i64| -> i64 { if halves < 0 { 0 } else { halves / 2 } };
    for y in 0..buffer.height() as i64 {
        for x in 0..buffer.width() as i64 {
            let in_box = column(center.0 - radius) <= x
                && x < column(center.0 + radius)
                && column(center.1 - radius) <= y
                && y < column(center.1 + radius);
            let across = 2 * x - center.0;
            let down = 2 * y - center.1;
            let inside = in_box && across * across + down * down <= radius * radius;
            let expected = if inside { PAINT } else { BLACK };
            assert_eq!(at(buffer, x as usize, y as usize), expected, "pixel ({}, {})", x, y);
        }
    }
}

#[test]
fn circle_around_the_middle_of_a_row() {
    // Center (10, 10.5), radius 5.
    let mut buffer = Buffer::new(20, 21);
    Circle::new(5 * PIXEL, Point2D { x: 10 * PIXEL, y: 10 * PIXEL + HALF }, PAINT)
        .render(&mut buffer);
    assert_disk(&buffer, (20, 21), 10);
    // Rows 5 to 14 are the box; row 5 is 5.5 away from the center, and row
    // 15, which is 4.5 away, is the far edge that the box leaves out.
    assert_eq!(at(&buffer, 10, 5), BLACK);
    assert_eq!(at(&buffer, 10, 6), PAINT);
    assert_eq!(at(&buffer, 10, 14), PAINT);
    assert_eq!(at(&buffer, 10, 15), BLACK);
    assert_eq!(at(&buffer, 5, 10), BLACK);
    assert_eq!(at(&buffer, 6, 10), PAINT);
    assert_eq!(at(&buffer, 14, 11), PAINT);
    let row = |y: usize| -> usize { (0..20).filter(|x| at(&buffer, *x, y) == PAINT).count() };
    for y in 7..=10 {
        assert_eq!(row(y), row(21 - y), "rows {} and {}", y, 21 - y);
    }
    assert_eq!(row(10), 9);
    assert_eq!(row(6), 5);
}

#[test]
fn circle_with_half_pixel_center_and_radius() {
    // Center (3.5, 3.5), radius 2.5: the box holds columns and rows 1 to 5,
    // and the pixels of column and row 1 are just too far away.
    let mut buffer = Buffer::new(8, 8);
    Circle::new(2 * PIXEL + HALF, Point2D { x: 3 * PIXEL + HALF, y: 3 * PIXEL + HALF }, PAINT)
        .render(&mut buffer);
    assert_disk(&buffer, (7, 7), 5);
    assert_eq!(at(&buffer, 1, 3), BLACK);
    assert_eq!(at(&buffer, 3, 1), BLACK);
    assert_eq!(at(&buffer, 1, 1), BLACK);
    assert_eq!(at(&buffer, 2, 2), PAINT);
    assert_eq!(at(&buffer, 5, 5), PAINT);
    assert_eq!(at(&buffer, 5, 3), PAINT);
    assert_eq!(at(&buffer, 6, 3), BLACK);
    assert_eq!(painted(&buffer), 16);
}

#[test]
fn whole_pixel_circles_agree_with_the_half_pixel_rule() {
    let mut buffer = Buffer::new(20, 20);
    Circle::new(5 * PIXEL, pixel(10, 10), PAINT).render(&mut buffer);
    assert_disk(&buffer, (20, 20), 10);
    let mut buffer = Buffer::new(8, 8);
    Circle::new(4 * PIXEL, pixel(1, 0), PAINT).render(&mut buffer);
    assert_disk(&buffer, (2, 0), 8);
}
