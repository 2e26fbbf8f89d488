use marswm::geometry::Dimensions;
use marswm::layout::LayoutType;
use marswm::workspace::MAIN_RATIO_MAX;
use marswm::workspace::MAIN_RATIO_MIN;
use marswm::workspace::Workspace;

fn area() -> Dimensions {
    Dimensions { x: 0, y: 0, w: 800, h: 600 }
}

fn ws_with(clients: &[u64]) -> Workspace {
    let mut ws = Workspace::new(0, "1", area());
    // attach prepends, so push in reverse to get the given order
    for c in clients.iter().rev() {
        ws.attach_client(*c);
    }
    ws
}

#[test]
fn new_workspace_defaults() {
    let ws = Workspace::new(3, "4", area());
    assert_eq!(ws.name(), "4");
    assert_eq!(ws.num, 3);
    assert!(ws.clients().is_empty());
    assert_eq!(ws.cur_layout, LayoutType::Floating);
    assert_eq!(ws.nmain, 1);
}

#[test]
fn attach_prepends() {
    let mut ws = Workspace::new(0, "1", area());
    ws.attach_client(10);
    ws.attach_client(20);
    assert_eq!(ws.clients().as_slice(), &[20, 10]);
}

#[test]
fn pull_front_moves_to_front_and_keeps_relative_order() {
    let mut ws = ws_with(&[1, 2, 3, 4]);
    ws.pull_front(3);
    assert_eq!(ws.clients().as_slice(), &[3, 1, 2, 4]);
}

#[test]
fn pull_front_of_unlisted_client_is_a_no_op() {
    let mut ws = ws_with(&[1, 2, 3]);
    ws.pull_front(9);
    assert_eq!(ws.clients().as_slice(), &[1, 2, 3]);
}

#[test]
fn detach_removes_only_the_client() {
    let mut ws = ws_with(&[1, 2, 3]);
    ws.detach_client(2);
    assert_eq!(ws.clients().as_slice(), &[1, 3]);
    ws.detach_client(9);
    assert_eq!(ws.clients().as_slice(), &[1, 3]);
}

#[test]
fn detach_then_attach_preserves_total_count() {
    // a client moves from one workspace to another: the total count over
    // both lists is unchanged and the client is listed exactly once
    let mut a = ws_with(&[1, 2, 3]);
    let mut b = ws_with(&[4, 5]);
    let before = a.clients().len() + b.clients().len();
    a.detach_client(2);
    b.attach_client(2);
    assert_eq!(a.clients().len() + b.clients().len(), before);
    assert!(!a.contains_client(2));
    assert!(b.contains_client(2));
}

#[test]
fn stack_move_swaps_with_neighbour() {
    let mut ws = ws_with(&[1, 2, 3, 4]);
    ws.stack_move(2, 1);
    assert_eq!(ws.clients().as_slice(), &[1, 3, 2, 4]);
    ws.stack_move(2, -1);
    assert_eq!(ws.clients().as_slice(), &[1, 2, 3, 4]);
}

#[test]
fn stack_move_clamps_at_the_ends() {
    let mut ws = ws_with(&[1, 2, 3]);
    ws.stack_move(1, -5);
    assert_eq!(ws.clients().as_slice(), &[1, 2, 3]);
    ws.stack_move(3, 7);
    assert_eq!(ws.clients().as_slice(), &[1, 2, 3]);
}

#[test]
fn nmain_is_bounded_below_at_zero() {
    let mut ws = Workspace::new(0, "1", area());
    ws.dec_nmain();
    assert_eq!(ws.nmain, 0);
    ws.dec_nmain();
    assert_eq!(ws.nmain, 0);
    ws.inc_nmain(3);
    assert_eq!(ws.nmain, 3);
    ws.inc_nmain(-10);
    assert_eq!(ws.nmain, 0);
}

#[test]
fn gaps_are_bounded_below_at_zero() {
    let mut ws = Workspace::new(0, "1", area());
    ws.inc_gaps(7);
    assert_eq!(ws.gap_width, 7);
    ws.inc_gaps(-100);
    assert_eq!(ws.gap_width, 0);
}

#[test]
fn main_ratio_is_clamped_to_sane_bounds() {
    let mut ws = Workspace::new(0, "1", area());
    ws.change_main_ratio(10000);
    assert_eq!(ws.main_ratio, MAIN_RATIO_MAX);
    ws.change_main_ratio(-10000);
    assert_eq!(ws.main_ratio, MAIN_RATIO_MIN);
    ws.change_main_ratio(50);
    assert_eq!(ws.main_ratio, MAIN_RATIO_MIN + 50);
}

#[test]
fn cycle_layout_advances() {
    let mut ws = Workspace::new(0, "1", area());
    assert_eq!(ws.cur_layout, LayoutType::Floating);
    ws.cycle_layout();
    assert_eq!(ws.cur_layout, LayoutType::Dynamic);
    ws.cycle_layout();
    assert_eq!(ws.cur_layout, LayoutType::Monocle);
}

#[test]
fn update_window_area_replaces_area() {
    let mut ws = Workspace::new(0, "1", area());
    let new_area = Dimensions { x: 0, y: 30, w: 800, h: 570 };
    ws.update_window_area(new_area);
    assert_eq!(ws.win_area, new_area);
}

#[test]
fn workspace_layout_uses_its_parameters() {
    let mut ws = ws_with(&[1, 2, 3]);
    ws.set_layout(LayoutType::Dynamic);
    ws.change_main_ratio(-50);  // 550 -> 500
    let current = vec![Dimensions { x: 0, y: 0, w: 1, h: 1 }; 3];
    let r = ws.apply_layout(&current);
    assert_eq!(r[0], Dimensions { x: 0, y: 0, w: 400, h: 600 });
    assert_eq!(r[1], Dimensions { x: 400, y: 0, w: 400, h: 300 });
    assert_eq!(r[2], Dimensions { x: 400, y: 300, w: 400, h: 300 });
}
