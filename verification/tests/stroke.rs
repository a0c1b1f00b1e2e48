use gesture_backup::stroke::{
    classify, corner_at, horizontal_check, horizontal_check2, is_clockwise, is_correct,
    is_horizontal, is_vertical, next_corner, next_side, vertical_check, Axis, Corner, TOLERANCE,
};

#[test]
fn tolerance_is_fifty_pixels() {
    assert_eq!(TOLERANCE, 50);
}

#[test]
fn alignment_holds_up_to_the_tolerance() {
    assert!(is_vertical((100, 0), (150, 900)));
    assert!(is_vertical((150, 0), (100, 900)));
    assert!(!is_vertical((100, 0), (151, 900)));
    assert!(is_horizontal((0, 100), (900, 50)));
    assert!(!is_horizontal((0, 100), (900, 49)));
}

#[test]
fn alignment_does_not_overflow_at_the_limits() {
    assert!(!is_vertical((i32::MIN, 0), (i32::MAX, 0)));
    assert!(is_vertical((i32::MAX, 0), (i32::MAX, 0)));
    assert!(!is_horizontal((0, i32::MAX), (0, i32::MIN)));
}

#[test]
fn vertical_stroke_on_left_edge_is_valid() {
    assert!(vertical_check((10, 5), (10, 1070), 1080, 1920));
    assert!(!horizontal_check((10, 5), (10, 1070), 1920, 1080));
    assert_eq!(classify((10, 5), (10, 1070), 1920, 1080), Axis::Vertical);
}

#[test]
fn span_must_exceed_nine_tenths() {
    // 900 of 1000 is exactly nine tenths: not enough for a segment.
    assert!(!vertical_check((0, 0), (0, 900), 1000, 2000));
    assert!(vertical_check((0, 0), (0, 901), 1000, 2000));
    assert!(!horizontal_check((0, 0), (900, 0), 1000, 2000));
    assert!(horizontal_check((901, 0), (0, 0), 1000, 2000));
    assert_eq!(classify((0, 0), (900, 0), 1000, 2000), Axis::Invalid);
    assert_eq!(classify((0, 0), (901, 0), 1000, 2000), Axis::Horizontal);
}

#[test]
fn confirmation_stroke_needs_nine_tenths_and_an_edge() {
    // 900 of 1000 is exactly nine tenths: enough for a confirmation.
    assert!(horizontal_check2((0, 10), (900, 10), 1000, 800));
    assert!(!horizontal_check2((0, 10), (899, 10), 1000, 800));
    assert!(horizontal_check2((950, 790), (10, 760), 1000, 800));
    assert!(!horizontal_check2((950, 790), (10, 739), 1000, 800));
    // y = 50 is on the top edge, y = 51 is not; y = 750 is on the bottom edge of 800.
    assert!(horizontal_check2((0, 50), (1000, 50), 1000, 800));
    assert!(!horizontal_check2((0, 51), (1000, 51), 1000, 800));
    assert!(horizontal_check2((0, 750), (1000, 750), 1000, 800));
    assert!(!horizontal_check2((0, 749), (1000, 749), 1000, 800));
}

#[test]
fn stroke_across_the_middle_is_no_confirmation() {
    assert!(!horizontal_check2((100, 500), (1900, 500), 2000, 1000));
    assert!(horizontal_check2((100, 960), (1900, 960), 2000, 1000));
    assert!(horizontal_check2((1900, 30), (100, 30), 2000, 1000));
}

#[test]
fn segment_must_end_on_an_edge() {
    // x = 50 is on the left edge, x = 51 is not; x = 1870 is on the right edge of 1920.
    assert!(vertical_check((50, 0), (50, 1000), 1080, 1920));
    assert!(!vertical_check((51, 0), (51, 1000), 1080, 1920));
    assert!(vertical_check((1870, 0), (1870, 1000), 1080, 1920));
    assert!(!vertical_check((1869, 0), (1869, 1000), 1080, 1920));
    assert!(horizontal_check((0, 1030), (1900, 1030), 1920, 1080));
    assert!(!horizontal_check((0, 1029), (1900, 1029), 1920, 1080));
}

#[test]
fn classified_stroke_meets_both_tests_of_its_axis() {
    let cases = [
        ((10, 5), (10, 1070)),
        ((10, 1070), (1910, 1070)),
        ((0, 0), (1910, 1070)),
        ((0, 0), (0, 0)),
        ((100, 500), (1900, 540)),
        ((100, 500), (1900, 560)),
    ];
    for (start, end) in cases {
        let dx = (i64::from(start.0) - i64::from(end.0)).abs();
        let dy = (i64::from(start.1) - i64::from(end.1)).abs();
        let horizontal = dy <= 50 && 10 * dx > 9 * 1920;
        let vertical = dx <= 50 && 10 * dy > 9 * 1080;
        match classify(start, end, 1920, 1080) {
            Axis::Horizontal => assert!(horizontal),
            Axis::Vertical => assert!(vertical),
            Axis::Invalid => assert!(!horizontal && !vertical),
        }
    }
}

#[test]
fn stroke_straight_along_both_axes_is_horizontal() {
    // On a screen of 40 by 40 a stroke of 40 pixels in both directions passes both tests.
    assert_eq!(classify((0, 0), (40, 40), 40, 40), Axis::Horizontal);
}

#[test]
fn huge_screen_does_not_overflow() {
    assert!(!vertical_check((0, i32::MIN), (0, i32::MAX), u64::MAX, u64::MAX));
    assert!(vertical_check((0, i32::MIN), (0, i32::MAX), 4_000_000_000, u64::MAX));
    assert_eq!(classify((i32::MIN, 0), (i32::MAX, 0), u64::MAX, u64::MAX), Axis::Invalid);
}

#[test]
fn orientation_of_a_first_vertical_segment() {
    // Top-to-bottom on the left edge and bottom-to-top on the right edge are clockwise.
    assert!(is_clockwise((10, 5), (10, 1070), Axis::Vertical, 1920));
    assert!(is_clockwise((1910, 1070), (1910, 5), Axis::Vertical, 1920));
    assert!(!is_clockwise((10, 1070), (10, 5), Axis::Vertical, 1920));
    assert!(!is_clockwise((1910, 5), (1910, 1070), Axis::Vertical, 1920));
}

#[test]
fn orientation_of_a_first_horizontal_segment() {
    // Left-to-right on the top edge and right-to-left on the bottom edge are counter-clockwise.
    assert!(!is_clockwise((10, 5), (1910, 5), Axis::Horizontal, 1080));
    assert!(!is_clockwise((1910, 1070), (10, 1070), Axis::Horizontal, 1080));
    assert!(is_clockwise((1910, 5), (10, 5), Axis::Horizontal, 1080));
    assert!(is_clockwise((10, 1070), (1910, 1070), Axis::Horizontal, 1080));
}

#[test]
fn invalid_axis_has_no_clockwise_orientation() {
    assert!(!is_clockwise((10, 5), (10, 1070), Axis::Invalid, 1920));
}

#[test]
fn corner_of_a_point() {
    assert_eq!(corner_at((10, 5)), Corner::TopLeft);
    assert_eq!(corner_at((50, 49)), Corner::TopLeft);
    assert_eq!(corner_at((51, 49)), Corner::TopRight);
    assert_eq!(corner_at((50, 50)), Corner::BottomLeft);
    assert_eq!(corner_at((1910, 1070)), Corner::BottomRight);
}

#[test]
fn next_corner_goes_round_the_screen() {
    let all = [Corner::TopLeft, Corner::TopRight, Corner::BottomRight, Corner::BottomLeft];
    for corner in all {
        for clockwise in [true, false] {
            let mut at = corner;
            for _ in 0..4 {
                let next = next_corner(at, clockwise);
                assert_ne!(next, at);
                assert_eq!(next_corner(next, !clockwise), at);
                at = next;
            }
            assert_eq!(at, corner);
        }
    }
    assert_eq!(next_corner(Corner::BottomLeft, true), Corner::BottomRight);
    assert_eq!(next_corner(Corner::BottomLeft, false), Corner::TopLeft);
}

#[test]
fn next_side_follows_the_orientation() {
    assert_eq!(next_side((10, 1070), true), Corner::BottomRight);
    assert_eq!(next_side((1910, 1070), true), Corner::TopRight);
    assert_eq!(next_side((1910, 5), true), Corner::TopLeft);
    assert_eq!(next_side((10, 5), true), Corner::BottomLeft);
    assert_eq!(next_side((10, 5), false), Corner::TopRight);
    assert_eq!(next_side((1910, 5), false), Corner::BottomRight);
    assert_eq!(next_side((1910, 1070), false), Corner::BottomLeft);
    assert_eq!(next_side((10, 1070), false), Corner::TopLeft);
}

#[test]
fn stroke_is_correct_towards_its_corner_only() {
    let all = [Corner::TopLeft, Corner::TopRight, Corner::BottomRight, Corner::BottomLeft];
    let strokes = [
        ((10, 5), (10, 1070), Axis::Vertical, Corner::BottomLeft),
        ((10, 1070), (10, 5), Axis::Vertical, Corner::TopLeft),
        ((1910, 5), (1910, 1070), Axis::Vertical, Corner::BottomRight),
        ((1910, 1070), (1910, 5), Axis::Vertical, Corner::TopRight),
        ((10, 5), (1910, 5), Axis::Horizontal, Corner::TopRight),
        ((1910, 5), (10, 5), Axis::Horizontal, Corner::TopLeft),
        ((10, 1070), (1910, 1070), Axis::Horizontal, Corner::BottomRight),
        ((1910, 1070), (10, 1070), Axis::Horizontal, Corner::BottomLeft),
    ];
    for (start, end, axis, towards) in strokes {
        for corner in all {
            assert_eq!(is_correct(start, end, axis, corner), corner == towards);
            assert!(!is_correct(start, end, Axis::Invalid, corner));
        }
    }
}

#[test]
fn confirmation_stroke_lies_along_an_edge() {
    let height: i32 = 1080;
    for start_y in [0, 30, 100, 540, 980, 1050, 1080] {
        for end_y in [0, 50, 51, 540, 1029, 1030, 1080] {
            if horizontal_check2((10, start_y), (1910, end_y), 1920, 1080) {
                let top = end_y <= 50 && start_y <= 100;
                let bottom = end_y + 50 >= height && start_y + 100 >= height;
                assert!(top || bottom);
            }
        }
    }
}

#[test]
fn horizontal_segment_is_a_confirmation_stroke() {
    for (start, end) in [((10, 5), (1910, 5)), ((1910, 1070), (10, 1070)), ((0, 40), (1729, 50))] {
        assert!(horizontal_check(start, end, 1920, 1080));
        assert!(horizontal_check2(start, end, 1920, 1080));
    }
}
