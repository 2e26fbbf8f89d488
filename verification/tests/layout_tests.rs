use marswm::geometry::Dimensions;
use marswm::layout::LayoutParams;
use marswm::layout::LayoutType;
use marswm::layout::StackMode;
use marswm::layout::StackPosition;
use marswm::layout::WINDOW_MIN_SIZE;
use marswm::layout::apply_layout;

fn dims(x: i32, y: i32, w: u32, h: u32) -> Dimensions {
    Dimensions { x, y, w, h }
}

fn params(layout: LayoutType, nmain: u32, gap: u32, ratio: u32) -> LayoutParams {
    LayoutParams {
        layout,
        nmain,
        gap_width: gap,
        main_ratio: ratio,
        stack_position: StackPosition::Right,
        stack_mode: StackMode::Split,
    }
}

#[test]
fn dynamic_three_clients_half_ratio() {
    // three clients, one in the main area, ratio one half, zero gap,
    // work area 800x600
    let area = dims(0, 0, 800, 600);
    let current = vec![dims(0, 0, 100, 100); 3];
    let p = params(LayoutType::Dynamic, 1, 0, 500);
    let r = apply_layout(&p, area, &current);
    assert_eq!(r.len(), 3);
    assert_eq!(r[0], dims(0, 0, 400, 600));
    assert_eq!(r[1], dims(400, 0, 400, 300));
    assert_eq!(r[2], dims(400, 300, 400, 300));
}

#[test]
fn dynamic_main_count_zero_empties_main_region() {
    let area = dims(0, 0, 800, 600);
    let current = vec![dims(0, 0, 100, 100); 2];
    let p = params(LayoutType::Dynamic, 0, 0, 500);
    let r = apply_layout(&p, area, &current);
    // the stack region spans the whole work area
    assert_eq!(r[0], dims(0, 0, 800, 300));
    assert_eq!(r[1], dims(0, 300, 800, 300));
}

#[test]
fn dynamic_main_count_at_least_clients_spans_area() {
    let area = dims(0, 0, 800, 600);
    let current = vec![dims(0, 0, 100, 100); 2];
    let p = params(LayoutType::Dynamic, 5, 0, 500);
    let r = apply_layout(&p, area, &current);
    // the main region spans the full work area; two rows
    assert_eq!(r[0], dims(0, 0, 800, 300));
    assert_eq!(r[1], dims(0, 300, 800, 300));
}

#[test]
fn monocle_every_client_gets_full_area_gap_inset() {
    let area = dims(10, 20, 800, 600);
    let current = vec![dims(0, 0, 1, 1); 4];
    let p = params(LayoutType::Monocle, 1, 5, 500);
    let r = apply_layout(&p, area, &current);
    for c in &r {
        assert_eq!(*c, dims(15, 25, 790, 590));
    }
}

#[test]
fn floating_keeps_current_geometries() {
    let area = dims(0, 0, 800, 600);
    let current = vec![dims(3, 4, 50, 60), dims(-7, 8, 90, 100)];
    let p = params(LayoutType::Floating, 1, 5, 500);
    let r = apply_layout(&p, area, &current);
    assert_eq!(r, current);
}

#[test]
fn deck_collapses_to_full_area() {
    let area = dims(0, 0, 640, 480);
    let current = vec![dims(0, 0, 1, 1); 3];
    let p = params(LayoutType::Deck, 1, 0, 500);
    let r = apply_layout(&p, area, &current);
    for c in &r {
        assert_eq!(*c, dims(0, 0, 640, 480));
    }
}

#[test]
fn minimum_size_floor_is_enforced() {
    // a pathologically small area still yields the floor, never less
    let area = dims(0, 0, 30, 10);
    let current = vec![dims(0, 0, 1, 1); 3];
    let p = params(LayoutType::Dynamic, 1, 8, 500);
    let r = apply_layout(&p, area, &current);
    for c in &r {
        assert!(c.w >= WINDOW_MIN_SIZE);
        assert!(c.h >= WINDOW_MIN_SIZE);
    }
}

#[test]
fn union_within_gap_inset_area() {
    let area = dims(0, 0, 1920, 1080);
    let current = vec![dims(0, 0, 1, 1); 5];
    let mut p = params(LayoutType::Dynamic, 2, 10, 600);
    p.stack_position = StackPosition::Bottom;
    let r = apply_layout(&p, area, &current);
    for c in &r {
        assert!(c.x >= 10 && c.y >= 10);
        assert!(c.x as i64 + c.w as i64 <= 1910);
        assert!(c.y as i64 + c.h as i64 <= 1070);
        assert!(c.w >= WINDOW_MIN_SIZE && c.h >= WINDOW_MIN_SIZE);
    }
}

#[test]
fn layout_engine_is_idempotent() {
    let area = dims(0, 0, 1366, 768);
    let current = vec![dims(0, 0, 1, 1); 4];
    let p = params(LayoutType::Dynamic, 2, 6, 550);
    let r1 = apply_layout(&p, area, &current);
    let r2 = apply_layout(&p, area, &current);
    assert_eq!(r1, r2);
}

#[test]
fn deck_stack_mode_overlaps_stack_clients() {
    let area = dims(0, 0, 800, 600);
    let current = vec![dims(0, 0, 1, 1); 3];
    let mut p = params(LayoutType::Dynamic, 1, 0, 500);
    p.stack_mode = StackMode::Deck;
    let r = apply_layout(&p, area, &current);
    assert_eq!(r[0], dims(0, 0, 400, 600));
    assert_eq!(r[1], dims(400, 0, 400, 600));
    assert_eq!(r[2], dims(400, 0, 400, 600));
}

#[test]
fn stack_position_left_mirrors_regions() {
    let area = dims(0, 0, 800, 600);
    let current = vec![dims(0, 0, 1, 1); 2];
    let mut p = params(LayoutType::Dynamic, 1, 0, 500);
    p.stack_position = StackPosition::Left;
    let r = apply_layout(&p, area, &current);
    assert_eq!(r[0], dims(400, 0, 400, 600));
    assert_eq!(r[1], dims(0, 0, 400, 600));
}

#[test]
fn layout_cycling_order() {
    assert_eq!(LayoutType::Floating.next(), LayoutType::Dynamic);
    assert_eq!(LayoutType::Dynamic.next(), LayoutType::Monocle);
    assert_eq!(LayoutType::Monocle.next(), LayoutType::Deck);
    assert_eq!(LayoutType::Deck.next(), LayoutType::Stack);
    assert_eq!(LayoutType::Stack.next(), LayoutType::BottomStack);
    assert_eq!(LayoutType::BottomStack.next(), LayoutType::Floating);
}
