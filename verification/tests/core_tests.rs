use marswm::atoms::X11Atom;
use marswm::atoms::supported_atoms;
use marswm::client::Client;
use marswm::config::Configuration;
use marswm::config::LayoutConfiguration;
use marswm::config::WindowPlacement;
use marswm::drag::mouse_action_move;
use marswm::drag::mouse_action_resize;
use marswm::error::MarsError;
use marswm::error::MarsErrorKind;
use marswm::geometry::Dimensions;
use marswm::layout::LayoutType;
use marswm::monitor::Monitor;
use marswm::geometry::MonitorConfig;
use marswm::props::PropertyChunk;
use marswm::props::PropertyReadStatus;
use marswm::props::PropertyReader;
use marswm::props::add_state;
use marswm::props::remove_state;

fn dims(x: i32, y: i32, w: u32, h: u32) -> Dimensions {
    Dimensions { x, y, w, h }
}

#[test]
fn dimensions_accessors_and_center() {
    let d = dims(10, 20, 100, 50);
    assert_eq!(d.pos(), (10, 20));
    assert_eq!(d.size(), (100, 50));
    assert_eq!(d.center(), (60, 45));
    assert_eq!((d.x(), d.y(), d.w(), d.h()), (10, 20, 100, 50));
}

#[test]
fn center_saturates_instead_of_wrapping() {
    let d = dims(i32::MAX - 5, 0, 100, 10);
    assert_eq!(d.center().0, i32::MAX);
}

#[test]
fn error_constructors_carry_their_kinds() {
    assert_eq!(MarsError::failed_request("XSync").kind(), MarsErrorKind::FailedRequest);
    assert_eq!(MarsError::failed_conversion("3", "text", "atom").kind(), MarsErrorKind::IllegalValue);
    assert_eq!(MarsError::invalid_input("bad rule").kind(), MarsErrorKind::InvalidInput);
    assert_eq!(MarsError::invalid_response("geometry").kind(), MarsErrorKind::IllegalValue);
    assert_eq!(MarsError::property_unavailable("name").kind(), MarsErrorKind::PropertyUnavailable);
    assert_eq!(MarsError::unknown("?").kind(), MarsErrorKind::Unknown);
    assert_eq!(
        MarsError::x11_unsupported_atom(X11Atom::NetWMState).kind(),
        MarsErrorKind::UnsupportedProtocol
    );
    assert_eq!(MarsError::x11_open_display().kind(), MarsErrorKind::ConnectionFailed);
}

#[test]
fn error_messages_render_kind_and_detail() {
    let e = MarsError::failed_request("XSync");
    assert_eq!(e.message(), "Failed request (XSync failed)");
    let e = MarsError::x11_open_display();
    assert_eq!(e.message(), "Connection failed (XOpenDisplay)");
}

#[test]
fn supported_atoms_list() {
    let atoms = supported_atoms();
    assert_eq!(atoms.len(), 10);
    assert_eq!(atoms[0], X11Atom::NetActiveWindow);
    assert_eq!(atoms[0].name(), "_NET_ACTIVE_WINDOW");
    assert_eq!(X11Atom::NetWMWindowTypeDock.name(), "_NET_WM_WINDOW_TYPE_DOCK");
    assert_eq!(X11Atom::WMState.name(), "WM_STATE");
}

#[test]
fn size_hints_clamp_to_minimum_and_increments() {
    let mut c = Client::new(1, 2, dims(0, 0, 107, 33));
    c.set_size_hints(50, 40, 10, 8);
    c.apply_size_hints();
    // width floors at the minimum then rounds down to an increment step
    assert_eq!(c.dimensions.w, 100);
    // height is below the minimum and clamps up to it
    assert_eq!(c.dimensions.h, 40);
    // without hints the geometry is untouched
    let mut c = Client::new(1, 2, dims(0, 0, 107, 33));
    c.apply_size_hints();
    assert_eq!((c.dimensions.w, c.dimensions.h), (107, 33));
}

#[test]
fn move_resize_updates_cached_geometry() {
    let mut c = Client::new(1, 2, dims(0, 0, 10, 10));
    c.move_resize(5, 6, 70, 80);
    assert_eq!(c.dimensions, dims(5, 6, 70, 80));
    assert_eq!(c.pos(), (5, 6));
    assert_eq!(c.size(), (70, 80));
}

#[test]
fn drag_placement_functions() {
    // a move translates by exactly the delta
    let r = mouse_action_move((10, 20), (100, 200), (30, -5));
    assert_eq!(r, dims(40, 15, 100, 200));
    // a resize extends by the delta and floors at the minimum size
    let r = mouse_action_resize((10, 20), (100, 200), (30, -5));
    assert_eq!(r, dims(10, 20, 130, 195));
    let r = mouse_action_resize((10, 20), (100, 200), (-95, -500));
    assert_eq!(r, dims(10, 20, 40, 40));
}

#[test]
fn property_reader_assembles_chunks() {
    let mut reader = PropertyReader::new(4);
    assert_eq!(reader.offset(), 0);
    let step = reader.step(PropertyChunk {
        status_ok: true,
        actual_type: 4,
        actual_format: 32,
        data: vec![1, 2, 3, 4],
        remaining_bytes: 8,
    });
    assert!(matches!(step, PropertyReadStatus::Continue));
    assert_eq!(reader.offset(), 2);
    let step = reader.step(PropertyChunk {
        status_ok: true,
        actual_type: 4,
        actual_format: 32,
        data: vec![5, 6],
        remaining_bytes: 0,
    });
    assert!(matches!(step, PropertyReadStatus::Done));
    assert_eq!(reader.data().as_slice(), &[1, 2, 3, 4, 5, 6]);
}

#[test]
fn property_reader_failure_modes() {
    // a failed call
    let mut r = PropertyReader::new(4);
    let s = r.step(PropertyChunk {
        status_ok: false,
        actual_type: 4,
        actual_format: 32,
        data: vec![],
        remaining_bytes: 0,
    });
    match s {
        PropertyReadStatus::Failed(e) => assert_eq!(e.kind(), MarsErrorKind::FailedRequest),
        _ => panic!("expected a failure"),
    }
    // an absent property
    let mut r = PropertyReader::new(4);
    let s = r.step(PropertyChunk {
        status_ok: true,
        actual_type: 0,
        actual_format: 0,
        data: vec![],
        remaining_bytes: 0,
    });
    match s {
        PropertyReadStatus::Failed(e) => assert_eq!(e.kind(), MarsErrorKind::PropertyUnavailable),
        _ => panic!("expected a failure"),
    }
    // a type mismatch
    let mut r = PropertyReader::new(4);
    let s = r.step(PropertyChunk {
        status_ok: true,
        actual_type: 5,
        actual_format: 32,
        data: vec![],
        remaining_bytes: 0,
    });
    match s {
        PropertyReadStatus::Failed(e) => assert_eq!(e.kind(), MarsErrorKind::IllegalValue),
        _ => panic!("expected a failure"),
    }
    // a wrong format
    let mut r = PropertyReader::new(4);
    let s = r.step(PropertyChunk {
        status_ok: true,
        actual_type: 4,
        actual_format: 16,
        data: vec![],
        remaining_bytes: 0,
    });
    assert!(matches!(s, PropertyReadStatus::Failed(_)));
    // a chunk without progress while bytes remain: fatal, not an infinite retry
    let mut r = PropertyReader::new(4);
    let s = r.step(PropertyChunk {
        status_ok: true,
        actual_type: 4,
        actual_format: 32,
        data: vec![],
        remaining_bytes: 12,
    });
    match s {
        PropertyReadStatus::Failed(e) => assert_eq!(e.kind(), MarsErrorKind::IllegalValue),
        _ => panic!("expected a failure"),
    }
}

#[test]
fn state_list_edits() {
    let mut states: Vec<u64> = vec![10, 20];
    add_state(&mut states, 20);
    assert_eq!(states, vec![10, 20]);
    add_state(&mut states, 30);
    assert_eq!(states, vec![10, 20, 30]);
    remove_state(&mut states, 20);
    assert_eq!(states, vec![10, 30]);
    remove_state(&mut states, 99);
    assert_eq!(states, vec![10, 30]);
}

#[test]
fn placement_policies() {
    let area = dims(0, 0, 800, 600);
    let client = dims(50, 60, 200, 100);
    // centred on the work area
    assert_eq!(WindowPlacement::Centered.calc(client, area, (0, 0)), (300, 250));
    // wherever: the requested position
    assert_eq!(WindowPlacement::Wherever.calc(client, area, (0, 0)), (50, 60));
    // at the pointer, clamped into the work area
    assert_eq!(WindowPlacement::Pointer.calc(client, area, (400, 300)), (300, 250));
    assert_eq!(WindowPlacement::Pointer.calc(client, area, (0, 0)), (0, 0));
    assert_eq!(WindowPlacement::Pointer.calc(client, area, (799, 599)), (600, 500));
}

#[test]
fn configuration_defaults() {
    let c = Configuration::default();
    assert_eq!(c.primary_workspaces, 9);
    assert_eq!(c.secondary_workspaces, 9);
    assert!(c.on_startup.is_none());
    assert_eq!(c.initial_placement, WindowPlacement::Centered);
    let l = LayoutConfiguration::default();
    assert_eq!(l.default, LayoutType::Dynamic);
    assert_eq!(l.gap_width, 5);
    assert_eq!(l.main_ratio, 550);
    assert_eq!(l.nmain, 1);
    assert_eq!(c.layout, l);
    assert_eq!(c.theming.active_color, 0x30d6ff);
    assert_eq!(c.theming.font, "sans");
}

#[test]
fn monitor_tracks_visible_workspace() {
    let area = dims(0, 0, 800, 600);
    let config = MonitorConfig { num: 0, dims: area, win_area: area };
    let mut m = Monitor::new(config, 4);
    assert_eq!(m.workspace_count(), 4);
    assert_eq!(m.current_workspace().name(), "1");
    m.switch_workspace(2);
    assert_eq!(m.cur_workspace, 2);
    assert_eq!(m.prev_workspace, 0);
    assert!(m.workspace(9).is_none());
    // a work-area change propagates to every workspace
    let new_area = dims(0, 30, 800, 570);
    m.update_window_area(new_area);
    assert_eq!(m.workspaces[3].win_area, new_area);
}
