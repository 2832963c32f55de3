use ship::fixed::Fixed;
use ship::framebuffer::{Color, Framebuffer, FAR};
use ship::line::{count_line_steps, line_pixel};
use ship::vector::Vector3;

fn n(v: i32) -> Fixed {
    Fixed::from_int(v)
}

const RED: Color = Color { r: 255, g: 0, b: 0, a: 255 };
const GREEN: Color = Color { r: 0, g: 255, b: 0, a: 255 };
const BLACK: Color = Color { r: 0, g: 0, b: 0, a: 255 };

fn far() -> Fixed {
    Fixed::from_raw(FAR)
}

fn snapshot(fb: &Framebuffer) -> (Vec<Color>, Vec<Fixed>) {
    (fb.color_buffer().clone(), fb.depth_buffer().clone())
}

fn line_of(x0: i32, y0: i32, x1: i32, y1: i32) -> Vec<(i32, i32)> {
    let steps = count_line_steps(x0, y0, x1, y1);
    (0..=steps)
        .map(|i| {
            let p = line_pixel(x0, y0, x1, y1, i);
            (p.x, p.y)
        })
        .collect()
}

#[test]
fn new_framebuffer_is_black_and_far() {
    let fb = Framebuffer::new(4, 3);
    assert_eq!(fb.width(), 4);
    assert_eq!(fb.height(), 3);
    assert_eq!(fb.color_buffer().len(), 12);
    assert_eq!(fb.depth_buffer().len(), 12);
    assert!(fb.color_buffer().iter().all(|c| *c == BLACK));
    assert!(fb.depth_buffer().iter().all(|d| *d == far()));
}

#[test]
fn empty_framebuffer_ignores_every_write() {
    let mut fb = Framebuffer::new(0, 5);
    fb.write_pixel_with_depth(0, 0, RED, n(1));
    fb.draw_line_with_depth(-3, -3, 3, 3, RED, n(1));
    fb.clear();
    assert!(fb.color_buffer().is_empty());
    assert_eq!(fb.color_at(0, 0), None);
}

#[test]
fn write_lands_at_row_times_width_plus_column() {
    let mut fb = Framebuffer::new(4, 3);
    fb.write_pixel_with_depth(1, 2, RED, n(5));
    assert_eq!(fb.color_buffer()[9], RED);
    assert_eq!(fb.depth_buffer()[9], n(5));
    assert_eq!(fb.color_at(1, 2), Some(RED));
    assert_eq!(fb.depth_at(1, 2), Some(n(5)));
    let untouched = fb.color_buffer().iter().filter(|c| **c == BLACK).count();
    assert_eq!(untouched, 11);
}

#[test]
fn out_of_bounds_writes_are_discarded() {
    let mut fb = Framebuffer::new(4, 3);
    let before = snapshot(&fb);
    for (x, y) in [(-1, 0), (0, -1), (4, 0), (0, 3), (4, 3), (i32::MAX, 1), (1, i32::MIN)] {
        fb.write_pixel_with_depth(x, y, RED, n(1));
        assert_eq!(fb.color_at(x, y), None);
        assert_eq!(fb.depth_at(x, y), None);
    }
    assert_eq!(snapshot(&fb), before);
}

#[test]
fn nearer_fragment_replaces_farther() {
    let mut fb = Framebuffer::new(2, 2);
    fb.write_pixel_with_depth(1, 1, RED, n(10));
    fb.write_pixel_with_depth(1, 1, GREEN, n(4));
    assert_eq!(fb.color_at(1, 1), Some(GREEN));
    assert_eq!(fb.depth_at(1, 1), Some(n(4)));
}

#[test]
fn farther_or_equal_fragment_is_occluded() {
    let mut fb = Framebuffer::new(2, 2);
    fb.write_pixel_with_depth(1, 1, RED, n(4));
    fb.write_pixel_with_depth(1, 1, GREEN, n(10));
    assert_eq!(fb.color_at(1, 1), Some(RED));
    fb.write_pixel_with_depth(1, 1, GREEN, n(4));
    assert_eq!(fb.color_at(1, 1), Some(RED));
    assert_eq!(fb.depth_at(1, 1), Some(n(4)));
}

#[test]
fn depth_test_is_idempotent() {
    let mut once = Framebuffer::new(3, 3);
    once.write_pixel_with_depth(0, 0, GREEN, n(7));
    once.write_pixel_with_depth(2, 1, RED, n(-3));
    let mut twice = Framebuffer::new(3, 3);
    twice.write_pixel_with_depth(0, 0, GREEN, n(7));
    twice.write_pixel_with_depth(2, 1, RED, n(-3));
    twice.write_pixel_with_depth(2, 1, RED, n(-3));
    assert_eq!(snapshot(&once), snapshot(&twice));
}

#[test]
fn depth_test_is_monotone_in_either_order() {
    let (d1, d2) = (n(2), n(9));
    let mut near_first = Framebuffer::new(3, 3);
    near_first.write_pixel_with_depth(1, 0, RED, d1);
    near_first.write_pixel_with_depth(1, 0, GREEN, d2);
    let mut far_first = Framebuffer::new(3, 3);
    far_first.write_pixel_with_depth(1, 0, GREEN, d2);
    far_first.write_pixel_with_depth(1, 0, RED, d1);
    assert_eq!(near_first.color_at(1, 0), Some(RED));
    assert_eq!(near_first.depth_at(1, 0), Some(d1));
    assert_eq!(snapshot(&near_first), snapshot(&far_first));
}

#[test]
fn pixel_that_holds_something_nearer_keeps_it() {
    let mut fb = Framebuffer::new(3, 3);
    fb.write_pixel_with_depth(1, 0, BLACK, n(1));
    fb.write_pixel_with_depth(1, 0, RED, n(2));
    fb.write_pixel_with_depth(1, 0, GREEN, n(9));
    assert_eq!(fb.color_at(1, 0), Some(BLACK));
    assert_eq!(fb.depth_at(1, 0), Some(n(1)));
}

#[test]
fn clear_resets_colors_and_depths() {
    let background = Color::new(25, 25, 75, 255);
    let mut fb = Framebuffer::new(3, 2);
    fb.set_background_color(background);
    // the background shows only after a clear
    assert!(fb.color_buffer().iter().all(|c| *c == BLACK));
    fb.write_pixel_with_depth(0, 0, RED, n(-100));
    fb.write_pixel_with_depth(2, 1, GREEN, n(3));
    fb.clear();
    assert!(fb.color_buffer().iter().all(|c| *c == background));
    assert!(fb.depth_buffer().iter().all(|d| *d == far()));
    assert_eq!(fb.width(), 3);
    assert_eq!(fb.height(), 2);
}

#[test]
fn write_after_clear_succeeds_below_the_far_depth() {
    let mut fb = Framebuffer::new(2, 2);
    fb.write_pixel_with_depth(0, 1, RED, Fixed::from_raw(i32::MIN));
    fb.clear();
    fb.write_pixel_with_depth(0, 1, GREEN, Fixed::from_raw(FAR - 1));
    assert_eq!(fb.color_at(0, 1), Some(GREEN));
    assert_eq!(fb.depth_at(0, 1), Some(Fixed::from_raw(FAR - 1)));
    fb.clear();
    fb.write_pixel_with_depth(0, 1, RED, n(1000));
    assert_eq!(fb.color_at(0, 1), Some(RED));
}

#[test]
fn write_at_the_far_depth_is_discarded() {
    let mut fb = Framebuffer::new(2, 2);
    fb.write_pixel_with_depth(0, 1, GREEN, far());
    assert_eq!(fb.color_at(0, 1), Some(BLACK));
}

#[test]
fn colors_from_unit_channels() {
    let half = Fixed::from_raw(32_768);
    assert_eq!(Color::from_vector(Vector3::new(n(1), half, n(0))), Color::new(255, 127, 0, 255));
    assert_eq!(
        Color::from_vector(Vector3::new(n(2), Fixed::from_raw(-1), Fixed::from_raw(65_535))),
        Color::new(255, 0, 254, 255)
    );
    assert_eq!(
        Color::from_vector(Vector3::new(Fixed::from_raw(257), Fixed::from_raw(258), n(-7))),
        Color::new(0, 1, 0, 255)
    );
}

#[test]
fn lines_along_the_axes() {
    assert_eq!(line_of(1, 2, 4, 2), vec![(1, 2), (2, 2), (3, 2), (4, 2)]);
    assert_eq!(line_of(4, 2, 1, 2), vec![(4, 2), (3, 2), (2, 2), (1, 2)]);
    assert_eq!(line_of(0, -1, 0, 1), vec![(0, -1), (0, 0), (0, 1)]);
    assert_eq!(line_of(5, 5, 5, 5), vec![(5, 5)]);
}

#[test]
fn diagonal_and_shallow_lines() {
    assert_eq!(line_of(0, 0, 3, 3), vec![(0, 0), (1, 1), (2, 2), (3, 3)]);
    assert_eq!(line_of(0, 0, -3, 3), vec![(0, 0), (-1, 1), (-2, 2), (-3, 3)]);
    assert_eq!(line_of(0, 0, 4, 2), vec![(0, 0), (1, 1), (2, 1), (3, 2), (4, 2)]);
    assert_eq!(line_of(0, 0, 2, 4), vec![(0, 0), (1, 1), (1, 2), (2, 3), (2, 4)]);
    assert_eq!(line_of(0, 0, 5, 1), vec![(0, 0), (1, 0), (2, 0), (3, 1), (4, 1), (5, 1)]);
    assert_eq!(line_of(0, 0, 5, -1), vec![(0, 0), (1, 0), (2, 0), (3, -1), (4, -1), (5, -1)]);
}

#[test]
fn longest_line_has_its_ends() {
    let steps = count_line_steps(i32::MIN, 0, i32::MAX, 7);
    assert_eq!(steps, 4_294_967_295);
    let first = line_pixel(i32::MIN, 0, i32::MAX, 7, 0);
    assert_eq!((first.x, first.y), (i32::MIN, 0));
    let last = line_pixel(i32::MIN, 0, i32::MAX, 7, steps);
    assert_eq!((last.x, last.y), (i32::MAX, 7));
}

#[test]
fn line_is_drawn_with_one_depth() {
    let mut fb = Framebuffer::new(5, 3);
    fb.draw_line_with_depth(0, 0, 4, 2, RED, n(1000));
    for (x, y) in [(0, 0), (1, 1), (2, 1), (3, 2), (4, 2)] {
        assert_eq!(fb.color_at(x, y), Some(RED));
        assert_eq!(fb.depth_at(x, y), Some(n(1000)));
    }
    assert_eq!(fb.color_buffer().iter().filter(|c| **c == RED).count(), 5);
}

#[test]
fn line_is_clipped_to_the_frame() {
    let mut fb = Framebuffer::new(3, 3);
    fb.draw_line_with_depth(-2, 1, 6, 1, GREEN, n(1));
    assert_eq!(fb.color_buffer().iter().filter(|c| **c == GREEN).count(), 3);
    for x in 0..3 {
        assert_eq!(fb.color_at(x, 1), Some(GREEN));
    }
}

#[test]
fn line_draws_behind_nearer_geometry() {
    let mut fb = Framebuffer::new(3, 1);
    fb.write_pixel_with_depth(1, 0, GREEN, n(5));
    fb.draw_line_with_depth(0, 0, 2, 0, RED, n(1000));
    assert_eq!(fb.color_at(0, 0), Some(RED));
    assert_eq!(fb.color_at(1, 0), Some(GREEN));
    assert_eq!(fb.color_at(2, 0), Some(RED));
    assert_eq!(fb.depth_at(1, 0), Some(n(5)));
}

#[test]
fn lines_have_no_gaps() {
    for (x0, y0, x1, y1) in [(0, 0, 17, 5), (3, -8, -20, 40), (5, 5, 5, -30), (-9, 2, 30, 3)] {
        let pixels = line_of(x0, y0, x1, y1);
        assert_eq!(pixels[0], (x0, y0));
        assert_eq!(pixels[pixels.len() - 1], (x1, y1));
        for pair in pixels.windows(2) {
            let dx = (pair[1].0 - pair[0].0).abs();
            let dy = (pair[1].1 - pair[0].1).abs();
            assert!(dx <= 1 && dy <= 1);
            assert!(dx == 1 || dy == 1);
        }
    }
}

#[test]
fn pixel_holds_the_nearest_of_many_writes() {
    let depths = [40, 7, 19, 7, 3, 88, 3, 12];
    let mut fb = Framebuffer::new(2, 2);
    for (i, d) in depths.iter().enumerate() {
        fb.write_pixel_with_depth(1, 0, Color::new(i as u8, 0, 0, 255), n(*d));
    }
    // the first of the two writes at depth 3 stays
    assert_eq!(fb.depth_at(1, 0), Some(n(3)));
    assert_eq!(fb.color_at(1, 0), Some(Color::new(4, 0, 0, 255)));
}

#[test]
fn writes_to_different_pixels_or_depths_commute() {
    let writes = [
        (0, 0, RED, 5),
        (1, 0, GREEN, 5),
        (0, 0, GREEN, 3),
        (2, 2, RED, 9),
        (0, 0, RED, 7),
        (7, 7, GREEN, 1),
    ];
    for a in writes {
        for b in writes {
            let mut one = Framebuffer::new(3, 3);
            one.write_pixel_with_depth(a.0, a.1, a.2, n(a.3));
            one.write_pixel_with_depth(b.0, b.1, b.2, n(b.3));
            let mut other = Framebuffer::new(3, 3);
            other.write_pixel_with_depth(b.0, b.1, b.2, n(b.3));
            other.write_pixel_with_depth(a.0, a.1, a.2, n(a.3));
            assert_eq!(snapshot(&one), snapshot(&other));
        }
    }
}

#[test]
fn equal_depths_keep_the_first_color() {
    let mut fb = Framebuffer::new(1, 1);
    fb.write_pixel_with_depth(0, 0, RED, n(5));
    fb.write_pixel_with_depth(0, 0, GREEN, n(5));
    assert_eq!(fb.color_at(0, 0), Some(RED));
}

#[test]
fn drawing_a_line_twice_changes_nothing() {
    let mut once = Framebuffer::new(6, 6);
    once.write_pixel_with_depth(2, 2, GREEN, n(3));
    once.draw_line_with_depth(-1, 0, 7, 5, RED, n(10));
    let mut twice = Framebuffer::new(6, 6);
    twice.write_pixel_with_depth(2, 2, GREEN, n(3));
    twice.draw_line_with_depth(-1, 0, 7, 5, RED, n(10));
    twice.draw_line_with_depth(-1, 0, 7, 5, RED, n(10));
    assert_eq!(snapshot(&once), snapshot(&twice));
}

#[test]
fn depths_do_not_depend_on_the_order_of_the_writes() {
    let writes = [
        (0, 0, RED, 5),
        (1, 0, GREEN, 5),
        (0, 0, GREEN, 5),
        (0, 0, BLACK, 3),
        (2, 2, RED, 9),
        (2, 2, GREEN, 9),
        (9, 9, GREEN, 1),
        (1, 0, RED, 8),
    ];
    let mut forward = Framebuffer::new(3, 3);
    for w in writes {
        forward.write_pixel_with_depth(w.0, w.1, w.2, n(w.3));
    }
    let mut backward = Framebuffer::new(3, 3);
    for w in writes.iter().rev() {
        backward.write_pixel_with_depth(w.0, w.1, w.2, n(w.3));
    }
    assert_eq!(forward.depth_buffer(), backward.depth_buffer());
    // where two colors come at one depth, the first one stays
    assert_eq!(forward.color_at(2, 2), Some(RED));
    assert_eq!(backward.color_at(2, 2), Some(GREEN));
}
