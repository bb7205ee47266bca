use goober_ui::alignment::Horizontal;
use goober_ui::arrangement::{
    place_center, place_left_or_top, place_right_or_bottom, spaced_align, BuiltinHorizontal,
    Horizontal as ArrangeHorizontal,
};
use goober_ui::unit::{Density, Dp};

#[test]
fn place_left_or_top_packs_from_the_start() {
    assert_eq!(place_left_or_top(vec![10, 20, 30]), vec![0, 10, 30]);
    assert_eq!(place_left_or_top(vec![]), Vec::<i32>::new());
}

#[test]
fn place_center_rounds_half_away_from_zero() {
    assert_eq!(place_center(100, vec![10, 20]), vec![35, 45]);
    assert_eq!(place_center(101, vec![10, 20]), vec![36, 46]);
    assert_eq!(place_center(10, vec![20, 1]), vec![-6, 15]);
}

#[test]
fn place_right_or_bottom_packs_against_the_end() {
    assert_eq!(place_right_or_bottom(100, vec![10, 20]), vec![70, 80]);
}

#[test]
fn spaced_align_places_with_spacing() {
    let offsets = spaced_align(Dp(10), None, Density(1000), 200, vec![50, 60]);
    assert_eq!(offsets, vec![0, 60]);
}

#[test]
fn spaced_align_clamps_when_room_runs_out() {
    let offsets = spaced_align(Dp(10), None, Density(1000), 100, vec![50, 60, 30]);
    assert_eq!(offsets, vec![0, 40, 70]);
}

#[test]
fn spaced_align_moves_the_group() {
    let plain = spaced_align(Dp(10), None, Density(1000), 200, vec![50, 60]);
    let centered = spaced_align(Dp(10), Some(0), Density(1000), 200, vec![50, 60]);
    let ended = spaced_align(Dp(10), Some(1000), Density(1000), 200, vec![50, 60]);
    assert_eq!(plain, vec![0, 60]);
    assert_eq!(centered, vec![40, 100]);
    assert_eq!(ended, vec![80, 140]);
    assert_eq!(centered[1] - centered[0], plain[1] - plain[0]);
    assert_eq!(ended[1] - ended[0], plain[1] - plain[0]);
}

#[test]
fn spaced_align_keeps_the_gaps_of_many_children() {
    let sizes = vec![7, 0, 13, 5, 21];
    let plain = spaced_align(Dp(4), None, Density(1500), 400, sizes.clone());
    let moved = spaced_align(Dp(4), Some(-250), Density(1500), 400, sizes.clone());
    assert_eq!(plain, vec![0, 13, 19, 38, 49]);
    for i in 0..sizes.len() - 1 {
        assert_eq!(plain[i + 1] - plain[i], sizes[i] + 6);
        assert_eq!(moved[i + 1] - moved[i], plain[i + 1] - plain[i]);
    }
    // 330 pixels are left over; a bias of -0.25 takes 3/8 of them.
    assert_eq!(moved[0], 124);
}

#[test]
fn spaced_align_never_passes_the_far_edge() {
    let sizes = vec![30, 30, 30, 30];
    let offsets = spaced_align(Dp(10), Some(1000), Density(1000), 100, sizes.clone());
    assert_eq!(offsets, vec![0, 40, 70, 70]);
    for (offset, size) in offsets.iter().zip(sizes) {
        assert!(offset + size <= 100);
    }
    let tight = spaced_align(Dp(10), None, Density(1000), 20, vec![30, 5]);
    assert_eq!(tight, vec![-10, 15]);
}

#[test]
fn builtin_horizontal_arranges() {
    let density = Density(1000);
    assert_eq!(BuiltinHorizontal::Start.arrange(density, 100, vec![10, 20]), vec![0, 10]);
    assert_eq!(BuiltinHorizontal::End.arrange(density, 100, vec![10, 20]), vec![70, 80]);
    assert_eq!(
        BuiltinHorizontal::SpacedAligned(Dp(5), Horizontal::End).arrange(density, 100, vec![10, 20]),
        vec![65, 80]
    );
    assert_eq!(
        BuiltinHorizontal::Aligned(Horizontal::Center).arrange(density, 100, vec![10, 20]),
        vec![35, 45]
    );
}
