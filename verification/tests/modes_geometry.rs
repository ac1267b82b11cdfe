use agent_spy::modes::bisect::BisectMode;
use agent_spy::modes::floating::{
    component_boxes, dilate_binary, gray_from_rgba, kernel_size, labelling_would_overflow, suppress_nested, target_rects, FloatingMode,
    GrayImage, PixelBox,
};
use agent_spy::modes::split::{SplitXMode, SplitYMode};
use agent_spy::modes::tile::{compute_grid, floor_sqrt, index_to_label, label_to_index, TileMode};
use agent_spy::modes::{
    continue_chain, resolve_chain, try_continue_chain, try_resolve_chain, ChainProgress, Mode, ModeStep, ModeType, Rect,
};
use agent_spy::overlay::OverlayState;

fn rect(x: i32, y: i32, w: u32, h: u32) -> Rect {
    Rect { x, y, w, h }
}

fn labels(subs: &[agent_spy::modes::Subdivision]) -> Vec<String> {
    subs.iter().map(|s| s.label.clone()).collect()
}

#[test]
fn rect_area_center_and_contains() {
    let r = rect(10, 20, 30, 40);
    assert_eq!(r.area(), 1200);
    assert_eq!(r.center(), (25, 40));
    assert!(r.contains(10, 20));
    assert!(r.contains(39, 59));
    assert!(!r.contains(40, 20));
    assert!(!r.contains(10, 60));
}

#[test]
fn bisect_square_cuts_into_four() {
    let subs = BisectMode.subdivisions(rect(0, 0, 100, 100));
    assert_eq!(labels(&subs), vec!["nw", "ne", "sw", "se"]);
    assert_eq!(subs[0].rect, rect(0, 0, 50, 50));
    assert_eq!(subs[1].rect, rect(50, 0, 50, 50));
    assert_eq!(subs[2].rect, rect(0, 50, 50, 50));
    assert_eq!(subs[3].rect, rect(50, 50, 50, 50));
}

#[test]
fn bisect_resolve_ignores_case() {
    assert_eq!(BisectMode.resolve(rect(0, 0, 100, 100), "NE"), Some(rect(50, 0, 50, 50)));
    assert_eq!(BisectMode.resolve(rect(0, 0, 100, 100), "north"), None);
}

#[test]
fn bisect_wide_area_cuts_into_eight() {
    let subs = BisectMode.subdivisions(rect(0, 0, 200, 100));
    assert_eq!(labels(&subs), vec!["nw", "nw2", "ne2", "ne", "sw", "sw2", "se2", "se"]);
    assert_eq!(subs[0].rect, rect(0, 0, 50, 50));
    assert_eq!(subs[7].rect, rect(150, 50, 50, 50));
}

#[test]
fn bisect_ratio_boundary_stays_four() {
    // 180 x 100 is exactly 1.8 times as wide as high: not wider than that.
    let subs = BisectMode.subdivisions(rect(0, 0, 180, 100));
    assert_eq!(subs.len(), 4);
}

#[test]
fn bisect_small_and_thin_areas() {
    assert!(BisectMode.subdivisions(rect(0, 0, 30, 30)).is_empty());
    assert!(BisectMode.subdivisions(rect(0, 0, 1, 1)).is_empty());
    // Halves of 1 x 11 or 9 x 1 fall below the minimum sub-area size.
    assert!(BisectMode.subdivisions(rect(0, 0, 1, 11)).is_empty());
    assert!(BisectMode.subdivisions(rect(5, 5, 9, 1)).is_empty());
    let subs = BisectMode.subdivisions(rect(0, 0, 1, 3000));
    assert_eq!(labels(&subs), vec!["n", "s"]);
    assert_eq!(subs[0].rect, rect(0, 0, 1, 1500));
    assert_eq!(subs[1].rect, rect(0, 1500, 1, 1500));
    let subs = BisectMode.subdivisions(rect(5, 5, 3000, 1));
    assert_eq!(labels(&subs), vec!["w", "e"]);
    assert_eq!(subs[0].rect, rect(5, 5, 1500, 1));
    assert_eq!(subs[1].rect, rect(1505, 5, 1500, 1));
}

#[test]
fn bisect_stops_below_minimum_sub_area() {
    // Four 25 x 25 cells would be 625 px each.
    assert!(BisectMode.subdivisions(rect(0, 0, 50, 50)).is_empty());
    assert!(BisectMode.subdivisions(rect(0, 0, 1, 100)).is_empty());
    // Four cells of exactly 1250 px are still made.
    let subs = BisectMode.subdivisions(rect(0, 0, 50, 100));
    assert_eq!(subs.len(), 4);
    assert_eq!(subs[0].rect, rect(0, 0, 25, 50));
    assert!(BisectMode.subdivisions(rect(0, 0, 49, 100)).is_empty());
    for s in BisectMode.subdivisions(rect(3, 4, 517, 203)) {
        assert!(s.rect.area() >= 1250);
    }
}

#[test]
fn split_stops_below_minimum_sub_area() {
    assert!(SplitXMode.subdivisions(rect(0, 0, 40, 40)).is_empty());
    assert!(SplitYMode.subdivisions(rect(0, 0, 40, 40)).is_empty());
    let subs = SplitXMode.subdivisions(rect(0, 0, 50, 50));
    assert_eq!(subs[0].rect, rect(0, 0, 25, 50));
    assert_eq!(subs[1].rect, rect(25, 0, 25, 50));
    assert!(SplitYMode.subdivisions(rect(0, 0, 50, 49)).is_empty());
    assert!(SplitXMode.subdivisions(rect(0, 0, 1, 5000)).is_empty());
}

#[test]
fn split_modes_halve_the_area() {
    let subs = SplitXMode.subdivisions(rect(0, 0, 100, 100));
    assert_eq!(labels(&subs), vec!["w", "e"]);
    assert_eq!(subs[0].rect, rect(0, 0, 50, 100));
    assert_eq!(subs[1].rect, rect(50, 0, 50, 100));
    let subs = SplitYMode.subdivisions(rect(0, 0, 100, 51));
    assert_eq!(labels(&subs), vec!["n", "s"]);
    assert_eq!(subs[0].rect, rect(0, 0, 100, 25));
    assert_eq!(subs[1].rect, rect(0, 25, 100, 26));
    assert!(SplitXMode.subdivisions(rect(0, 0, 20, 20)).is_empty());
    assert_eq!(SplitYMode.resolve(rect(0, 0, 100, 100), "S"), Some(rect(0, 50, 100, 50)));
}

#[test]
fn floor_sqrt_values() {
    assert_eq!(floor_sqrt(0), 0);
    assert_eq!(floor_sqrt(1), 1);
    assert_eq!(floor_sqrt(624), 24);
    assert_eq!(floor_sqrt(625), 25);
    assert_eq!(floor_sqrt(u64::MAX), 4294967295);
}

#[test]
fn tile_grid_and_labels() {
    let area = rect(0, 0, 100, 100);
    let g = compute_grid(&area);
    assert_eq!((g.rows, g.cols), (4, 2));
    let subs = TileMode.subdivisions(area);
    assert_eq!(labels(&subs), vec!["a", "b", "c", "d", "e", "f", "g", "h"]);
    assert_eq!(subs[0].rect, rect(0, 0, 50, 25));
    assert_eq!(subs[1].rect, rect(0, 25, 50, 25));
    assert_eq!(subs[4].rect, rect(50, 0, 50, 25));
    assert_eq!(TileMode.resolve(area, "B"), Some(rect(0, 25, 50, 25)));
    assert_eq!(TileMode.resolve(area, "z"), None);
    assert_eq!(TileMode.resolve(area, "ab"), None);
}

#[test]
fn tile_two_letter_labels_round_trip() {
    assert_eq!(index_to_label(27, 700), "bb");
    assert_eq!(label_to_index("bb", 700), Some(27));
    assert_eq!(label_to_index("BB", 700), Some(27));
    assert_eq!(label_to_index("zz", 700), Some(675));
    assert_eq!(label_to_index("b", 700), None);
    assert_eq!(index_to_label(3, 26), "d");
    assert_eq!(label_to_index("d", 3), None);
}

#[test]
fn mode_cycle_and_labels() {
    let mut m = ModeType::Bisect;
    let mut seen = Vec::new();
    for _ in 0..5 {
        seen.push(m.label());
        m = m.next();
    }
    assert_eq!(seen, vec!["Bisect", "Split-X", "Split-Y", "Tile", "Floating"]);
    assert_eq!(m, ModeType::Bisect);
    assert!(ModeType::Floating.needs_targets());
    assert!(!ModeType::Tile.needs_targets());
}

#[test]
fn chain_resolves_step_by_step() {
    let steps = vec![
        ModeStep { mode: ModeType::Bisect, selection: "nw".to_string() },
        ModeStep { mode: ModeType::SplitX, selection: "e".to_string() },
    ];
    match resolve_chain(rect(0, 0, 100, 100), &steps) {
        ChainProgress::Done(Some(r)) => assert_eq!(r, rect(25, 0, 25, 50)),
        other => panic!("unexpected {:?}", other),
    }
    let bad = vec![ModeStep { mode: ModeType::Bisect, selection: "xx".to_string() }];
    assert!(matches!(resolve_chain(rect(0, 0, 100, 100), &bad), ChainProgress::Done(None)));
}

#[test]
fn chain_waits_for_floating_targets() {
    let steps = vec![
        ModeStep { mode: ModeType::Bisect, selection: "se".to_string() },
        ModeStep { mode: ModeType::Floating, selection: "b".to_string() },
    ];
    let (area, step) = match resolve_chain(rect(0, 0, 100, 100), &steps) {
        ChainProgress::NeedsTargets { area, step } => (area, step),
        other => panic!("unexpected {:?}", other),
    };
    assert_eq!(area, rect(50, 50, 50, 50));
    assert_eq!(step, 1);
    let targets = vec![rect(55, 55, 10, 5), rect(70, 60, 20, 8)];
    match continue_chain(area, &steps, step, Some(targets)) {
        ChainProgress::Done(Some(r)) => assert_eq!(r, rect(70, 60, 20, 8)),
        other => panic!("unexpected {:?}", other),
    }
}

#[test]
fn overlay_zooms_into_selection() {
    let mut state = OverlayState::new(ModeType::Bisect, rect(0, 0, 100, 100));
    assert_eq!(state.subdivisions.len(), 4);
    assert_eq!(state.select_at(75, 10), Some("ne".to_string()));
    assert_eq!(state.area, rect(50, 0, 50, 50));
    assert_eq!(state.history, vec![rect(0, 0, 100, 100)]);
    assert_eq!(state.select_at(-5, -5), None);
    assert_eq!(state.area, rect(50, 0, 50, 50));
    state.set_mode(ModeType::SplitY);
    assert!(state.history.is_empty());
    assert_eq!(labels(&state.subdivisions), vec!["n", "s"]);
}

#[test]
fn overlay_floating_waits_for_targets() {
    let mut state = OverlayState::new(ModeType::Floating, rect(0, 0, 100, 100));
    assert!(state.targets_pending);
    assert!(state.subdivisions.is_empty());
    state.provide_targets(vec![rect(1, 1, 10, 10), rect(30, 30, 10, 10)]);
    assert!(!state.targets_pending);
    assert_eq!(labels(&state.subdivisions), vec!["a", "b"]);
    assert_eq!(state.select_at(35, 35), Some("b".to_string()));
}

#[test]
fn nested_targets_are_suppressed() {
    let kept = suppress_nested(vec![rect(12, 12, 4, 4), rect(0, 0, 40, 40), rect(100, 100, 8, 8)]);
    assert_eq!(kept, vec![rect(0, 0, 40, 40), rect(100, 100, 8, 8)]);
}

#[test]
fn floating_labels_targets() {
    let targets = vec![rect(0, 0, 10, 10), rect(20, 0, 10, 10)];
    let subs = FloatingMode::subdivisions(targets.clone());
    assert_eq!(labels(&subs), vec!["a", "b"]);
    assert_eq!(FloatingMode::resolve(targets.clone(), "B"), Some(rect(20, 0, 10, 10)));
    assert_eq!(FloatingMode::resolve(targets, "c"), None);
}

#[test]
fn grey_conversion_weights_channels() {
    let img = gray_from_rgba(2, 1, &vec![255, 0, 0, 255, 10, 200, 30, 255]);
    assert_eq!(img.pixels, vec![76, 123]);
}

#[test]
fn dilation_spreads_ink() {
    let img = GrayImage { width: 5, height: 1, pixels: vec![0, 0, 255, 0, 0] };
    let out = dilate_binary(&img, 3, 1);
    assert_eq!(out.pixels, vec![0, 255, 255, 255, 0]);
}

#[test]
fn dilation_window_is_kernel_sized() {
    let mut pixels = vec![0u8; 9 * 7];
    pixels[3 * 9 + 4] = 255;
    let img = GrayImage { width: 9, height: 7, pixels };
    let out = dilate_binary(&img, 4, 3);
    assert_eq!(out.pixels.iter().filter(|p| **p == 255).count(), 12);
    assert!(out.pixels.iter().all(|p| *p == 0 || *p == 255));
    for y in 0..7usize {
        for x in 0..9usize {
            // The window reaches two columns left and one right of a pixel, so the
            // ink at column 4 reaches columns 3 to 6.
            let lit = (3..=6).contains(&x) && (2..=4).contains(&y);
            assert_eq!(out.pixels[y * 9 + x] == 255, lit, "pixel {} {}", x, y);
        }
    }
}

#[test]
fn labelling_overflow_is_detected() {
    assert!(labelling_would_overflow(&GrayImage { width: 1, height: 1, pixels: vec![255] }));
    assert!(labelling_would_overflow(&GrayImage { width: 2, height: 1, pixels: vec![1, 2] }));
    assert!(!labelling_would_overflow(&GrayImage { width: 2, height: 1, pixels: vec![255, 255] }));
    assert!(!labelling_would_overflow(&GrayImage { width: 1, height: 2, pixels: vec![0, 255] }));
    assert!(!labelling_would_overflow(&GrayImage { width: 1, height: 1, pixels: vec![0] }));
}

#[test]
fn component_boxes_of_separate_marks() {
    let img = GrayImage { width: 4, height: 2, pixels: vec![255, 0, 0, 255, 255, 0, 0, 0] };
    let boxes = component_boxes(&img);
    assert_eq!(boxes.len(), 2);
    assert!(boxes.contains(&PixelBox { min_x: 0, min_y: 0, max_x: 0, max_y: 1 }));
    assert!(boxes.contains(&PixelBox { min_x: 3, min_y: 0, max_x: 3, max_y: 0 }));
}

#[test]
fn kernel_follows_capture_scale() {
    assert_eq!(kernel_size(200, 100), (7, 5));
    assert_eq!(kernel_size(100, 100), (4, 3));
    assert_eq!(kernel_size(10, 0), (u32::MAX, u32::MAX));
}

#[test]
fn target_rects_keep_target_sized_boxes() {
    let boxes = vec![
        PixelBox { min_x: 0, min_y: 0, max_x: 19, max_y: 9 },
        PixelBox { min_x: 40, min_y: 40, max_x: 41, max_y: 41 },
        PixelBox { min_x: 10, min_y: 30, max_x: 49, max_y: 49 },
    ];
    let area = rect(100, 200, 60, 50);
    let rects = target_rects(&boxes, area, 100);
    assert_eq!(rects, vec![rect(100, 200, 10, 5), rect(105, 215, 20, 10)]);
}

#[test]
fn checked_chain_walks_like_the_plain_one() {
    let steps = vec![
        ModeStep { mode: ModeType::Bisect, selection: "NW".to_string() },
        ModeStep { mode: ModeType::SplitX, selection: "e".to_string() },
    ];
    match try_resolve_chain(rect(0, 0, 100, 100), &steps) {
        Some(ChainProgress::Done(Some(r))) => assert_eq!(r, rect(25, 0, 25, 50)),
        other => panic!("unexpected {:?}", other),
    }
    assert!(matches!(try_resolve_chain(rect(7, 8, 9, 10), &[]), Some(ChainProgress::Done(Some(r))) if r == rect(7, 8, 9, 10)));
    // The east half of an area at the right edge of the coordinate range
    // would start past i32::MAX.
    let far = vec![ModeStep { mode: ModeType::SplitX, selection: "e".to_string() }];
    assert!(try_resolve_chain(rect(i32::MAX - 10, 0, 100, 100), &far).is_none());
    let floating = vec![ModeStep { mode: ModeType::Floating, selection: "A".to_string() }];
    match try_continue_chain(rect(0, 0, 50, 50), &floating, 0, Some(vec![rect(1, 2, 3, 4)])) {
        Some(ChainProgress::Done(Some(r))) => assert_eq!(r, rect(1, 2, 3, 4)),
        other => panic!("unexpected {:?}", other),
    }
}

#[test]
fn mode_range_check() {
    assert!(ModeType::Bisect.computes_on_check(rect(0, 0, 100, 100)));
    assert!(!ModeType::SplitX.computes_on_check(rect(i32::MAX - 10, 0, 100, 100)));
    assert!(ModeType::SplitY.computes_on_check(rect(i32::MAX - 10, 0, 100, 100)));
    assert!(!ModeType::Tile.computes_on_check(rect(i32::MAX - 10, 0, 1000, 1000)));
    assert!(ModeType::Floating.computes_on_check(rect(i32::MAX, i32::MAX, u32::MAX, u32::MAX)));
}

#[test]
fn upper_case_labels_read_back() {
    for total in [1u32, 26, 27, 676] {
        for idx in [0u32, total / 2, total - 1] {
            let label = index_to_label(idx, total);
            assert_eq!(label_to_index(&label.to_ascii_uppercase(), total), Some(idx));
        }
    }
}
