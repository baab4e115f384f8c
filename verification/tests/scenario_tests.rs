use hanoi::config::{default_config, Config};
use hanoi::framing::place_play_area;
use hanoi::play_area::{DragState, PlayArea, PointerButton};

fn three_disc_config() -> Config {
    let mut c = default_config();
    c.n_discs = 3;
    c
}

fn ranks(p: &PlayArea, rod: usize) -> Vec<u32> {
    p.rods[rod].discs.iter().map(|d| d.rank).collect()
}

fn assert_stacks_ordered(p: &PlayArea) {
    for rod in p.rods.iter() {
        for pair in rod.discs.windows(2) {
            assert!(
                pair[1].rank < pair[0].rank,
                "ranks must strictly decrease from bottom to top"
            );
        }
    }
}

fn all_ranks_sorted(p: &PlayArea) -> Vec<u32> {
    let mut v: Vec<u32> = Vec::new();
    for rod in p.rods.iter() {
        for d in rod.discs.iter() {
            v.push(d.rank);
        }
    }
    if let DragState::Dragging { disc, .. } = p.drag {
        v.push(disc.rank);
    }
    v.sort();
    v
}

#[test]
fn initial_board_layout() {
    let p = PlayArea::new(three_disc_config());
    assert_eq!(p.rods.len(), 3);
    assert_eq!(ranks(&p, 0), vec![2, 1, 0]);
    assert_eq!(ranks(&p, 1), Vec::<u32>::new());
    assert_eq!(ranks(&p, 2), Vec::<u32>::new());
    assert!(matches!(p.drag, DragState::Idle));
}

#[test]
fn legal_move_to_empty_peg() {
    // Three pegs, three discs on peg 0 (top-to-bottom ranks 0, 1, 2).
    let mut p = PlayArea::new(three_disc_config());

    // Press on the top disc of peg 0 (rank 0, stacked at position 2:
    // y in [440, 500], centered at x = 213 with width 100).
    p.mouse_moved(213, 450);
    p.mouse_button_pressed(PointerButton::Left);
    match p.drag {
        DragState::Dragging { disc, source_rod, offset_x, offset_y } => {
            assert_eq!(disc.rank, 0);
            assert_eq!(source_rod, 0);
            assert_eq!(offset_x, 0);
            assert_eq!(offset_y, -10);
        }
        DragState::Idle => panic!("press over the top disc must start a drag"),
    }
    assert_eq!(ranks(&p, 0), vec![2, 1]);

    // Release over peg 1's dropbox ([426, 853)); peg 1 is empty, so it
    // accepts the disc.
    p.mouse_moved(640, 300);
    p.mouse_button_released(PointerButton::Left);
    assert!(matches!(p.drag, DragState::Idle));
    assert_eq!(ranks(&p, 0), vec![2, 1]);
    assert_eq!(ranks(&p, 1), vec![0]);
    assert_eq!(ranks(&p, 2), Vec::<u32>::new());
}

#[test]
fn illegal_move_reverts_to_source() {
    // Continue from the state of `legal_move_to_empty_peg`.
    let mut p = PlayArea::new(three_disc_config());
    p.mouse_moved(213, 450);
    p.mouse_button_pressed(PointerButton::Left);
    p.mouse_moved(640, 300);
    p.mouse_button_released(PointerButton::Left);

    // Press the new top of peg 0 (rank 1, stacked at position 1:
    // y in [500, 560], centered at x = 213 with width 225).
    p.mouse_moved(213, 510);
    p.mouse_button_pressed(PointerButton::Left);
    match p.drag {
        DragState::Dragging { disc, source_rod, .. } => {
            assert_eq!(disc.rank, 1);
            assert_eq!(source_rod, 0);
        }
        DragState::Idle => panic!("press over the top disc must start a drag"),
    }

    // Release over peg 1, whose top disc is rank 0: 1 < 0 fails, so the
    // disc returns to peg 0 and the board is unchanged by the attempt.
    p.mouse_moved(640, 300);
    p.mouse_button_released(PointerButton::Left);
    assert!(matches!(p.drag, DragState::Idle));
    assert_eq!(ranks(&p, 0), vec![2, 1]);
    assert_eq!(ranks(&p, 1), vec![0]);
    assert_eq!(ranks(&p, 2), Vec::<u32>::new());
}

#[test]
fn press_on_empty_dropbox_stays_idle() {
    let mut p = PlayArea::new(three_disc_config());
    // Peg 2 is empty; its dropbox is [853, 1280). Press there, over no
    // disc at all.
    p.mouse_moved(1000, 400);
    p.mouse_button_pressed(PointerButton::Left);
    assert!(matches!(p.drag, DragState::Idle));
    assert_eq!(ranks(&p, 0), vec![2, 1, 0]);
    assert_eq!(ranks(&p, 1), Vec::<u32>::new());
    assert_eq!(ranks(&p, 2), Vec::<u32>::new());
}

#[test]
fn release_while_idle_is_a_no_op() {
    let mut p = PlayArea::new(three_disc_config());
    p.mouse_moved(640, 300);
    p.mouse_button_released(PointerButton::Left);
    assert!(matches!(p.drag, DragState::Idle));
    assert_eq!(ranks(&p, 0), vec![2, 1, 0]);
    assert_eq!(ranks(&p, 1), Vec::<u32>::new());
}

#[test]
fn other_buttons_are_ignored() {
    let mut p = PlayArea::new(three_disc_config());
    p.mouse_moved(213, 450);
    p.mouse_button_pressed(PointerButton::Other);
    assert!(matches!(p.drag, DragState::Idle));
    assert_eq!(ranks(&p, 0), vec![2, 1, 0]);

    p.mouse_button_pressed(PointerButton::Left);
    assert!(matches!(p.drag, DragState::Dragging { .. }));
    p.mouse_button_released(PointerButton::Other);
    assert!(matches!(p.drag, DragState::Dragging { .. }));
}

#[test]
fn press_while_dragging_is_a_no_op() {
    let mut p = PlayArea::new(three_disc_config());
    p.mouse_moved(213, 450);
    p.mouse_button_pressed(PointerButton::Left);
    let held = match p.drag {
        DragState::Dragging { disc, .. } => disc.rank,
        DragState::Idle => panic!("drag must have started"),
    };
    // A second press, even over another top disc position, changes
    // nothing: picking up happens only from the idle state.
    p.mouse_moved(213, 510);
    p.mouse_button_pressed(PointerButton::Left);
    match p.drag {
        DragState::Dragging { disc, .. } => assert_eq!(disc.rank, held),
        DragState::Idle => panic!("drag must still be in progress"),
    }
    assert_eq!(ranks(&p, 0), vec![2, 1]);
}

#[test]
fn discs_are_conserved_across_many_events() {
    let mut p = PlayArea::new(three_disc_config());
    assert_eq!(all_ranks_sorted(&p), vec![0, 1, 2]);

    // A mix of legal moves, illegal (reverted) drops, off-board drops,
    // and no-op events.
    let script: [(i64, i64); 6] = [(213, 450), (640, 300), (213, 510), (640, 300), (1000, 400), (640, 590)];
    for (x, y) in script.iter() {
        p.mouse_moved(*x, *y);
        p.mouse_button_pressed(PointerButton::Left);
        assert_eq!(all_ranks_sorted(&p), vec![0, 1, 2]);
        assert_stacks_ordered(&p);
        p.mouse_moved(-500, 10_000);
        p.mouse_button_released(PointerButton::Left);
        assert_eq!(all_ranks_sorted(&p), vec![0, 1, 2]);
        assert_stacks_ordered(&p);
    }
}

#[test]
fn resize_mid_drag_shifts_floating_disc_by_offset_change() {
    // Five discs, 1280x720 board; pick up the top disc of peg 0
    // (rank 0 at stack position 4: y in [320, 380]).
    let cfg = default_config();
    let mut p = PlayArea::new(cfg);
    p.mouse_moved(213, 350);
    p.mouse_button_pressed(PointerButton::Left);
    assert!(matches!(p.drag, DragState::Dragging { .. }));

    // The window is resized from 1280x720 to 1000x900 mid-drag.
    let frame1 = place_play_area(&cfg, 1280, 720);
    let frame2 = place_play_area(&cfg, 1000, 900);
    assert_eq!((frame1.offset_x, frame1.offset_y), (0, 0));
    assert_eq!((frame2.offset_x, frame2.offset_y), (-140, 90));

    let scene1 = p.render(&frame1);
    let scene2 = p.render(&frame2);
    let v1 = scene1.floating.expect("a drag is in progress");
    let v2 = scene2.floating.expect("a drag is in progress");

    // The rendered position shifts by exactly the offset change ...
    assert_eq!(v2.center_x - v1.center_x, frame2.offset_x - frame1.offset_x);
    assert_eq!(v2.top_y - v1.top_y, frame2.offset_y - frame1.offset_y);
    assert_eq!((v1.center_x, v1.top_y), (213, 320));
    assert_eq!((v2.center_x, v2.top_y), (73, 410));

    // ... while the logical drag state is unaffected.
    match p.drag {
        DragState::Dragging { disc, source_rod, .. } => {
            assert_eq!(disc.rank, 0);
            assert_eq!(source_rod, 0);
        }
        DragState::Idle => panic!("rendering must not end the drag"),
    }
}

#[test]
fn drop_outside_every_dropbox_reverts() {
    let mut p = PlayArea::new(three_disc_config());
    p.mouse_moved(213, 450);
    p.mouse_button_pressed(PointerButton::Left);
    // x = -50 lies left of the board: no dropbox holds it.
    p.mouse_moved(-50, 300);
    p.mouse_button_released(PointerButton::Left);
    assert!(matches!(p.drag, DragState::Idle));
    assert_eq!(ranks(&p, 0), vec![2, 1, 0]);
}
