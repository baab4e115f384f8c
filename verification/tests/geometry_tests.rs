use hanoi::board::{calc_rod_value, make_rod, Disc, Rod};
use hanoi::config::{default_config, Config};
use hanoi::framing::place_play_area;
use hanoi::geometry::{
    calc_disc_width, calc_rod_center, calc_stacked_y, clamp_rect_position, rod_dropbox_end,
    rod_dropbox_start,
};

fn three_disc_config() -> Config {
    let mut c = default_config();
    c.n_discs = 3;
    c
}

#[test]
fn stacked_y_descends_from_base_line() {
    let cfg = default_config();
    assert_eq!(calc_stacked_y(&cfg, 0), 560);
    assert_eq!(calc_stacked_y(&cfg, 1), 500);
    assert_eq!(calc_stacked_y(&cfg, 2), 440);
    assert_eq!(calc_stacked_y(&cfg, 3), 380);
    assert_eq!(calc_stacked_y(&cfg, 4), 320);
}

#[test]
fn disc_widths_interpolate_linearly() {
    let cfg = default_config();
    // step = (350 - 100) / (5 - 1) = 62
    assert_eq!(calc_disc_width(&cfg, 0), 100);
    assert_eq!(calc_disc_width(&cfg, 1), 162);
    assert_eq!(calc_disc_width(&cfg, 2), 224);
    assert_eq!(calc_disc_width(&cfg, 3), 286);
    assert_eq!(calc_disc_width(&cfg, 4), 348);

    let c3 = three_disc_config();
    // step = 250 / 2 = 125
    assert_eq!(calc_disc_width(&c3, 0), 100);
    assert_eq!(calc_disc_width(&c3, 1), 225);
    assert_eq!(calc_disc_width(&c3, 2), 350);
}

#[test]
fn rod_centers_are_slice_midpoints() {
    let cfg = default_config();
    assert_eq!(calc_rod_center(&cfg, 0), 213);
    assert_eq!(calc_rod_center(&cfg, 1), 640);
    assert_eq!(calc_rod_center(&cfg, 2), 1066);
}

#[test]
fn dropboxes_tile_the_board_width() {
    let cfg = default_config();
    assert_eq!(rod_dropbox_start(&cfg, 0), 0);
    assert_eq!(rod_dropbox_end(&cfg, 0), 426);
    assert_eq!(rod_dropbox_start(&cfg, 1), 426);
    assert_eq!(rod_dropbox_end(&cfg, 1), 853);
    assert_eq!(rod_dropbox_start(&cfg, 2), 853);
    assert_eq!(rod_dropbox_end(&cfg, 2), 1280);

    // Every x inside the board hits exactly one dropbox; the half-open
    // intervals neither overlap at the seams nor leave gaps.
    let rods: Vec<Rod> = (0..3).map(|i| make_rod(&cfg, i)).collect();
    for x in [0i64, 1, 425, 426, 852, 853, 1000, 1279] {
        let hits = rods.iter().filter(|r| r.pos_in_dropbox(&cfg, x)).count();
        assert_eq!(hits, 1, "x = {} must hit exactly one dropbox", x);
    }
    for x in [-1i64, 1280, 5000] {
        let hits = rods.iter().filter(|r| r.pos_in_dropbox(&cfg, x)).count();
        assert_eq!(hits, 0, "x = {} lies outside the board", x);
    }
}

#[test]
fn clamp_keeps_rectangle_inside_bounds() {
    // Left and top edges win first.
    assert_eq!(clamp_rect_position(-5, 10, 100, 60, 1280, 720), (0, 10));
    assert_eq!(clamp_rect_position(50, -3, 100, 60, 1280, 720), (50, 0));
    // Right and bottom edges clamp to bound minus size.
    assert_eq!(clamp_rect_position(1200, 700, 100, 60, 1280, 720), (1180, 660));
    // A rectangle already inside is untouched.
    assert_eq!(clamp_rect_position(300, 200, 100, 60, 1280, 720), (300, 200));
}

#[test]
fn play_area_frame_centers_the_board() {
    let cfg = default_config();
    let f = place_play_area(&cfg, 1280, 720);
    assert_eq!((f.offset_x, f.offset_y), (0, 0));
    assert_eq!((f.width, f.height), (1280, 720));

    let f = place_play_area(&cfg, 1920, 1080);
    assert_eq!((f.offset_x, f.offset_y), (320, 180));

    // A window smaller than the board gives a negative offset.
    let f = place_play_area(&cfg, 1000, 900);
    assert_eq!((f.offset_x, f.offset_y), (-140, 90));
}

#[test]
fn can_accept_is_the_stacking_rule() {
    let cfg = three_disc_config();
    let mut rod = make_rod(&cfg, 1);
    let small = Disc { rank: 0, width: calc_disc_width(&cfg, 0) };
    let mid = Disc { rank: 1, width: calc_disc_width(&cfg, 1) };
    let large = Disc { rank: 2, width: calc_disc_width(&cfg, 2) };

    // An empty rod accepts any disc.
    assert!(rod.can_accept(&small));
    assert!(rod.can_accept(&large));

    rod.push(mid);
    // Only strictly smaller discs may land on rank 1.
    assert!(rod.can_accept(&small));
    assert!(!rod.can_accept(&large));
    assert!(!rod.can_accept(&mid));
}

#[test]
fn top_disc_and_remove_top_work_on_the_stack_end() {
    let cfg = three_disc_config();
    let mut rod = make_rod(&cfg, 0);
    assert!(rod.top_disc().is_none());
    assert_eq!(calc_rod_value(&rod.discs), u32::MAX);

    rod.push(Disc { rank: 2, width: 350 });
    rod.push(Disc { rank: 1, width: 225 });
    assert_eq!(rod.top_disc().unwrap().rank, 1);
    assert_eq!(calc_rod_value(&rod.discs), 1);

    let popped = rod.remove_top();
    assert_eq!(popped.rank, 1);
    assert_eq!(rod.top_disc().unwrap().rank, 2);
    assert_eq!(calc_rod_value(&rod.discs), 2);
}
