use hanoi::config::default_config;
use hanoi::framing::place_play_area;
use hanoi::play_area::{DragState, PlayArea, PointerButton};
use hanoi::render::{compute_disc_color, disc_slices, tint_channel, DiscView};

#[test]
fn fresh_scene_lists_rods_and_discs_in_draw_order() {
    let cfg = default_config();
    let p = PlayArea::new(cfg);
    let frame = place_play_area(&cfg, 1280, 720);
    let scene = p.render(&frame);

    assert_eq!((scene.back_x, scene.back_y), (0, 0));
    assert_eq!((scene.back_width, scene.back_height), (1280, 720));

    assert_eq!(scene.rods.len(), 3);
    for (i, rv) in scene.rods.iter().enumerate() {
        assert_eq!(rv.width, 20);
        assert_eq!(rv.height, 500);
        assert_eq!(rv.y, 120);
        assert!(!rv.highlighted);
        let center = [213i64, 640, 1066][i];
        assert_eq!(rv.x, center - 10);
    }

    assert_eq!(scene.discs.len(), 3);
    assert_eq!(scene.discs[0].len(), 5);
    assert!(scene.discs[1].is_empty());
    assert!(scene.discs[2].is_empty());
    // Bottom to top: largest disc first, y climbing by one disc height.
    let ys = [560i64, 500, 440, 380, 320];
    let ranks = [4u32, 3, 2, 1, 0];
    for (k, dv) in scene.discs[0].iter().enumerate() {
        assert_eq!(dv.rank, ranks[k]);
        assert_eq!(dv.center_x, 213);
        assert_eq!(dv.top_y, ys[k]);
        assert!(!dv.highlighted);
    }
    assert!(scene.floating.is_none());
}

#[test]
fn hover_highlights_only_the_top_disc_under_the_pointer() {
    let cfg = default_config();
    let mut p = PlayArea::new(cfg);
    p.mouse_moved(213, 350);
    assert!(p.top_disc_hovered(0));
    assert!(!p.top_disc_hovered(1));

    let frame = place_play_area(&cfg, 1280, 720);
    let scene = p.render(&frame);
    for (k, dv) in scene.discs[0].iter().enumerate() {
        assert_eq!(dv.highlighted, k == 4, "only the top disc hovers");
    }
}

#[test]
fn drag_highlights_exactly_the_legal_target_under_the_pointer() {
    let cfg = default_config();
    let mut p = PlayArea::new(cfg);
    p.mouse_moved(213, 350);
    p.mouse_button_pressed(PointerButton::Left);
    p.mouse_moved(640, 300);

    assert!(!p.rod_highlight(0)); // pointer is not in its dropbox
    assert!(p.rod_highlight(1)); // empty rod under the pointer accepts
    assert!(!p.rod_highlight(2));

    let frame = place_play_area(&cfg, 1280, 720);
    let scene = p.render(&frame);
    let lit: Vec<usize> =
        scene.rods.iter().enumerate().filter(|(_, r)| r.highlighted).map(|(i, _)| i).collect();
    assert_eq!(lit, vec![1]);
}

#[test]
fn floating_disc_follows_pointer_and_clamps_into_the_board() {
    let cfg = default_config();
    let mut p = PlayArea::new(cfg);
    p.mouse_moved(213, 350);
    p.mouse_button_pressed(PointerButton::Left);

    let frame = place_play_area(&cfg, 1280, 720);
    // Drag far off the board: the sprite clamps to the board's corner.
    p.mouse_moved(-400, -400);
    let scene = p.render(&frame);
    let v = scene.floating.expect("a drag is in progress");
    assert_eq!(v.rank, 0);
    assert_eq!(v.width, 100);
    assert!(v.highlighted, "the held disc draws in its highlighted variant");
    assert_eq!((v.center_x, v.top_y), (50, 0));

    // And to the opposite corner on the other side.
    p.mouse_moved(5000, 5000);
    let scene = p.render(&frame);
    let v = scene.floating.expect("a drag is in progress");
    assert_eq!((v.center_x, v.top_y), (1230, 660));
}

#[test]
fn floating_disc_keeps_its_pick_up_offset() {
    let cfg = default_config();
    let mut p = PlayArea::new(cfg);
    // Press slightly off the disc's anchor: anchor is (213, 320), press
    // at (230, 350), so the offset is (-17, -30).
    p.mouse_moved(230, 350);
    p.mouse_button_pressed(PointerButton::Left);
    let frame = place_play_area(&cfg, 1280, 720);

    p.mouse_moved(700, 400);
    let scene = p.render(&frame);
    let v = scene.floating.expect("a drag is in progress");
    assert_eq!((v.center_x, v.top_y), (683, 370));
}

#[test]
fn disc_color_sweeps_hue_by_rank() {
    for (rank, hue) in [(0u32, 0u8), (1, 51), (2, 102), (3, 153), (4, 204)] {
        let c = compute_disc_color(rank, 5);
        assert_eq!((c.h, c.s, c.v), (hue, 255, 255));
    }
    assert_eq!(compute_disc_color(2, 3).h, 170);
}

#[test]
fn tint_channel_rescales_products() {
    assert_eq!(tint_channel(200, 51), 40);
    assert_eq!(tint_channel(255, 255), 255);
    assert_eq!(tint_channel(0, 200), 0);
    assert_eq!(tint_channel(128, 128), 64);
}

#[test]
fn disc_slices_cut_caps_and_stretched_middle() {
    let cfg = default_config();
    let v = DiscView { rank: 0, center_x: 213, top_y: 320, width: 100, highlighted: false };
    let s = disc_slices(&cfg, &v);
    // pixel = 60 / 12 = 5; left edge = 213 - 50 = 163.
    assert_eq!((s.left.x, s.left.y, s.left.width, s.left.height), (163, 320, 5, 60));
    assert_eq!((s.middle.x, s.middle.y, s.middle.width, s.middle.height), (168, 320, 90, 60));
    assert_eq!((s.right.x, s.right.y, s.right.width, s.right.height), (258, 320, 5, 60));
}
