use viewport_vulkan::geometry::{Point, Rectangle, Size, Transform};
use viewport_vulkan::transform::{framebuffer_rect, position, texture, Affine, Source};

const TRANSFORMS: [Transform; 8] = [
    Transform::Normal,
    Transform::_90,
    Transform::_180,
    Transform::_270,
    Transform::Flipped,
    Transform::Flipped90,
    Transform::Flipped180,
    Transform::Flipped270,
];

const CORNERS: [(bool, bool); 4] = [(false, false), (true, false), (false, true), (true, true)];

fn size(w: i32, h: i32) -> Size {
    Size { w, h }
}

fn rect(x: i32, y: i32, w: i32, h: i32) -> Rectangle {
    Rectangle {
        loc: Point { x, y },
        size: Size { w, h },
    }
}

/// A corner of a quad in clip space.
fn apply(affine: &Affine, u: bool, v: bool) -> (f32, f32) {
    let (x, y) = affine.apply(u, v);
    (
        x as f32 / affine.width as f32,
        y as f32 / affine.height as f32,
    )
}

/// Where a corner of a quad samples, as a fraction of the texture.
fn sample(
    src: (f64, f64, f64, f64),
    (width, height): (u32, u32),
    transform: Transform,
    flipped: bool,
    (u, v): (bool, bool),
) -> (f32, f32) {
    let source = Source {
        x: src.0.to_bits(),
        y: src.1.to_bits(),
        w: src.2.to_bits(),
        h: src.3.to_bits(),
    };
    let map = texture(source, width, height, transform, flipped);
    let read = f64::from_bits;
    let (column, row) = map.part.apply(u, v);
    (
        ((read(map.source.x) + column as f64 * read(map.source.w)) / map.width as f64) as f32,
        ((read(map.source.y) + row as f64 * read(map.source.h)) / map.height as f64) as f32,
    )
}

fn close(a: (f32, f32), b: (f32, f32)) -> bool {
    (a.0 - b.0).abs() < 1e-4 && (a.1 - b.1).abs() < 1e-4
}

#[test]
fn an_untransformed_rect_maps_straight_to_clip_space() {
    // The whole of a 100x50 output.
    let affine = position(rect(0, 0, 100, 50), size(100, 50), Transform::Normal);
    assert!(close(apply(&affine, false, false), (-1.0, -1.0)), "top-left");
    assert!(close(apply(&affine, true, false), (1.0, -1.0)), "top-right");
    assert!(close(apply(&affine, false, true), (-1.0, 1.0)), "bottom-left");
    assert!(close(apply(&affine, true, true), (1.0, 1.0)), "bottom-right");
}

#[test]
fn a_quadrant_lands_in_its_quadrant() {
    // Top-left quarter of a 100x100 output is the top-left quarter of clip
    // space, which runs -1..1.
    let affine = position(rect(0, 0, 50, 50), size(100, 100), Transform::Normal);
    assert!(close(apply(&affine, false, false), (-1.0, -1.0)));
    assert!(close(apply(&affine, true, true), (0.0, 0.0)));
}

#[test]
fn a_rotated_output_moves_the_corner_round() {
    // A 100x50 framebuffer on a display rotated 90 degrees, so the desktop
    // drawn into it is 50x100. The desktop's (0,0) goes to the top-right corner
    // of the framebuffer.
    let framebuffer = size(100, 50);
    let transform = Transform::_90;
    let affine = position(
        Rectangle::from_size(transform.transform_size(framebuffer)),
        framebuffer,
        transform,
    );
    assert!(
        close(apply(&affine, false, false), (1.0, -1.0)),
        "top-left goes right"
    );
    // And the whole quad still covers the whole framebuffer.
    for (u, v) in CORNERS {
        let (x, y) = apply(&affine, u, v);
        assert!((-1.0..=1.0).contains(&x) && (-1.0..=1.0).contains(&y));
    }
}

#[test]
fn every_output_transform_covers_the_framebuffer_exactly_once() {
    // Whatever the rotation, the four corners of a full-output quad have to be
    // the four corners of clip space: no gaps, no overlap.
    let framebuffer = size(80, 40);
    for transform in TRANSFORMS {
        let affine = position(
            Rectangle::from_size(transform.transform_size(framebuffer)),
            framebuffer,
            transform,
        );
        let mut corners: Vec<(i32, i32)> = CORNERS
            .into_iter()
            .map(|(u, v)| {
                let (x, y) = apply(&affine, u, v);
                (x.round() as i32, y.round() as i32)
            })
            .collect();
        corners.sort();
        assert_eq!(
            corners,
            vec![(-1, -1), (-1, 1), (1, -1), (1, 1)],
            "{transform:?} does not cover clip space"
        );
    }
}

#[test]
fn a_flip_is_not_the_rotation_it_shares_a_name_with() {
    // A 32x16 framebuffer holds a 16x32 desktop under either transform.
    let framebuffer = size(32, 16);
    let quadrant = rect(0, 0, 8, 8);

    let rotated = framebuffer_rect(quadrant, framebuffer, Transform::_90);
    let flipped = framebuffer_rect(quadrant, framebuffer, Transform::Flipped90);

    assert_eq!(
        rotated,
        rect(24, 0, 8, 8),
        "_90 puts the desktop's top-left in the framebuffer's top-right"
    );
    assert_eq!(
        flipped,
        rect(24, 8, 8, 8),
        "Flipped90 mirrors that into the bottom-right"
    );
}

#[test]
fn a_scissor_covers_exactly_what_the_quad_covers() {
    let framebuffer = size(80, 40);
    for transform in TRANSFORMS {
        let area = transform.transform_size(framebuffer);
        let rect = rect(area.w / 4, area.h / 8, area.w / 2, area.h / 4);
        let scissor = framebuffer_rect(rect, framebuffer, transform);
        let affine = position(rect, framebuffer, transform);

        // The quad's corners, back out of clip space into pixels.
        let mut xs = vec![];
        let mut ys = vec![];
        for (u, v) in CORNERS {
            let (x, y) = apply(&affine, u, v);
            xs.push((x + 1.0) * 0.5 * framebuffer.w as f32);
            ys.push((y + 1.0) * 0.5 * framebuffer.h as f32);
        }
        let low = |v: &[f32]| v.iter().cloned().fold(f32::INFINITY, f32::min).round() as i32;
        let high = |v: &[f32]| v.iter().cloned().fold(f32::NEG_INFINITY, f32::max).round() as i32;

        assert_eq!(
            scissor,
            Rectangle {
                loc: Point {
                    x: low(&xs),
                    y: low(&ys)
                },
                size: Size {
                    w: high(&xs) - low(&xs),
                    h: high(&ys) - low(&ys)
                },
            },
            "{transform:?}: the scissor and the quad disagree"
        );
    }
}

#[test]
fn an_untransformed_texture_samples_the_whole_source() {
    let at = |corner| {
        sample(
            (0.0, 0.0, 64.0, 32.0),
            (64, 32),
            Transform::Normal,
            false,
            corner,
        )
    };
    assert!(close(at((false, false)), (0.0, 0.0)));
    assert!(close(at((true, true)), (1.0, 1.0)));
}

#[test]
fn a_source_rectangle_samples_only_its_part() {
    // The right half of a 64-wide texture.
    let at = |corner| {
        sample(
            (32.0, 0.0, 32.0, 32.0),
            (64, 32),
            Transform::Normal,
            false,
            corner,
        )
    };
    assert!(close(at((false, false)), (0.5, 0.0)));
    assert!(close(at((true, false)), (1.0, 0.0)));
}

#[test]
fn a_flipped_buffer_samples_bottom_up() {
    let at = |corner| {
        sample(
            (0.0, 0.0, 10.0, 10.0),
            (10, 10),
            Transform::Normal,
            true,
            corner,
        )
    };
    // The top of the quad reads the bottom of the buffer.
    assert!(close(at((false, false)), (0.0, 1.0)));
    assert!(close(at((false, true)), (0.0, 0.0)));
}

#[test]
fn every_surface_transform_samples_the_whole_texture_exactly_once() {
    for transform in TRANSFORMS {
        let mut corners: Vec<(i32, i32)> = CORNERS
            .into_iter()
            .map(|corner| {
                let (x, y) = sample(
                    (0.0, 0.0, 16.0, 16.0),
                    (16, 16),
                    transform,
                    false,
                    corner,
                );
                (x.round() as i32, y.round() as i32)
            })
            .collect();
        corners.sort();
        assert_eq!(
            corners,
            vec![(0, 0), (0, 1), (1, 0), (1, 1)],
            "{transform:?} does not sample the texture exactly once"
        );
    }
}

#[test]
fn the_inverse_puts_a_point_back() {
    let area = size(16, 9);
    for transform in TRANSFORMS {
        let seen = transform.transform_size(area);
        for (x, y) in [(0, 0), (16, 9), (3, 7)] {
            let there = transform.transform_point_in(Point { x, y }, area);
            let back = transform.invert().transform_point_in(there, seen);
            // A mirrored quarter turn is undone by itself, not by the turn the
            // other way, which leaves the point half a turn away.
            let left = match transform {
                Transform::Flipped90 | Transform::Flipped270 => Point { x: 16 - x, y: 9 - y },
                _ => Point { x, y },
            };
            assert_eq!(back, left, "{transform:?}");
        }
    }
    assert_eq!(Transform::Flipped90.invert(), Transform::Flipped270);
    assert_eq!(Transform::Flipped270.invert(), Transform::Flipped90);
    assert_eq!(Transform::_90.invert(), Transform::_270);
}

#[test]
fn mirrored_quarter_turns_sample_opposite_corners() {
    let at = |transform, corner| {
        sample((0.0, 0.0, 16.0, 16.0), (16, 16), transform, false, corner)
    };
    assert_eq!(at(Transform::Flipped90, (false, false)), (1.0, 1.0));
    assert_eq!(at(Transform::Flipped90, (true, false)), (1.0, 0.0));
    assert_eq!(at(Transform::Flipped270, (false, false)), (0.0, 0.0));
    assert_eq!(at(Transform::Flipped270, (true, false)), (0.0, 1.0));
}

#[test]
fn a_source_may_start_and_end_between_pixels() {
    let at = |flipped, corner| {
        sample(
            (0.5, 1.25, 2.0, 0.5),
            (4, 2),
            Transform::Normal,
            flipped,
            corner,
        )
    };
    assert_eq!(at(false, (false, false)), (0.125, 0.625));
    assert_eq!(at(false, (true, true)), (0.625, 0.875));
    assert_eq!(at(true, (false, false)), (0.125, 0.875));
}

#[test]
fn a_quad_is_drawn_where_its_rectangle_is() {
    // A 32x16 framebuffer holds a 16x32 desktop; (0, 0) goes top-right.
    let affine = position(rect(0, 0, 8, 8), size(32, 16), Transform::_90);
    assert_eq!((affine.width, affine.height), (32, 16));
    assert_eq!(affine.apply(false, false), (32, -16));
    assert_eq!(affine.apply(true, false), (32, 0));
    assert_eq!(affine.apply(false, true), (16, -16));
    assert_eq!(affine.apply(true, true), (16, 0));
}

#[test]
fn rectangles_that_only_touch_share_nothing() {
    assert_eq!(rect(0, 0, 4, 4).intersection(rect(4, 0, 4, 4)), None);
    assert_eq!(
        rect(0, 0, 4, 4).intersection(rect(2, 1, 4, 4)),
        Some(rect(2, 1, 2, 3))
    );
    assert_eq!(
        rect(-32, 0, 64, 32).intersection(rect(0, 0, 32, 32)),
        Some(rect(0, 0, 32, 32))
    );
}

#[test]
fn a_scissor_over_an_empty_framebuffer_is_empty() {
    assert_eq!(
        framebuffer_rect(rect(3, 4, 5, 6), size(0, 0), Transform::Normal),
        rect(0, 0, 0, 0)
    );
    // An extent along one axis only is no extent at all.
    for transform in TRANSFORMS {
        for framebuffer in [size(0, 16), size(16, 0)] {
            assert_eq!(
                framebuffer_rect(rect(0, 0, 8, 8), framebuffer, transform),
                rect(0, 0, 0, 0),
                "{transform:?}"
            );
        }
    }
}
