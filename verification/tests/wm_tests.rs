use marswm::bindings::BindingAction;
use marswm::bindings::default_button_bindings;
use marswm::bindings::default_key_bindings;
use marswm::drag::DragKind;
use marswm::geometry::Dimensions;
use marswm::geometry::MonitorConfig;
use marswm::layout::LayoutType;
use marswm::wm::ManageDecision;
use marswm::wm::MarsWM;
use marswm::wm::WmCommand;

fn dims(x: i32, y: i32, w: u32, h: u32) -> Dimensions {
    Dimensions { x, y, w, h }
}

fn fresh_wm() -> MarsWM {
    let area = dims(0, 0, 800, 600);
    let config = MonitorConfig { num: 0, dims: area, win_area: area };
    MarsWM::new(vec![config], 9, default_key_bindings(9), default_button_bindings())
}

fn manage_plain(wm: &mut MarsWM, window: u64, frame: u64) -> Vec<WmCommand> {
    wm.manage(window, frame, dims(0, 0, 100, 100), 0, 0, 0, 0, None, false)
}

#[test]
fn classification_of_new_windows() {
    let mut wm = fresh_wm();
    assert_eq!(wm.classify_new_window(7, true, false), ManageDecision::Ignore);
    assert_eq!(wm.classify_new_window(7, true, true), ManageDecision::Ignore);
    assert_eq!(wm.classify_new_window(7, false, true), ManageDecision::ShowDock);
    assert_eq!(wm.classify_new_window(7, false, false), ManageDecision::Manage);
    manage_plain(&mut wm, 7, 107);
    // an already managed window is never managed twice
    assert_eq!(wm.classify_new_window(7, false, false), ManageDecision::Ignore);
}

#[test]
fn manage_attaches_and_exports() {
    let mut wm = fresh_wm();
    let cmds = manage_plain(&mut wm, 7, 107);
    assert_eq!(wm.clients.len(), 1);
    assert_eq!(wm.clients[0].window, 7);
    assert_eq!(wm.clients[0].frame, 107);
    assert_eq!(wm.monitors[0].workspaces[0].clients().as_slice(), &[7]);
    assert_eq!(wm.stacking.as_slice(), &[7]);
    match &cmds[cmds.len() - 2] {
        WmCommand::ExportClientList(list) => assert_eq!(list.as_slice(), &[7]),
        other => panic!("expected a client list export, got {:?}", other),
    }
    match cmds.last().unwrap() {
        WmCommand::ExportClientListStacking(list) => assert_eq!(list.as_slice(), &[7]),
        other => panic!("expected a stacking export, got {:?}", other),
    }
    // a second client is prepended
    manage_plain(&mut wm, 8, 108);
    assert_eq!(wm.monitors[0].workspaces[0].clients().as_slice(), &[8, 7]);
}

#[test]
fn unmanage_detaches_and_releases_frame() {
    let mut wm = fresh_wm();
    manage_plain(&mut wm, 7, 107);
    manage_plain(&mut wm, 8, 108);
    let cmds = wm.unmanage(7);
    assert_eq!(wm.clients.len(), 1);
    assert!(wm.monitors[0].workspaces[0].clients().as_slice() == &[8]);
    assert!(cmds.contains(&WmCommand::DestroyFrame(107)));
    assert_eq!(wm.stacking.as_slice(), &[8]);
    match &cmds[cmds.len() - 2] {
        WmCommand::ExportClientList(list) => assert_eq!(list.as_slice(), &[8]),
        other => panic!("expected a client list export, got {:?}", other),
    }
    match cmds.last().unwrap() {
        WmCommand::ExportClientListStacking(list) => assert_eq!(list.as_slice(), &[8]),
        other => panic!("expected a stacking export, got {:?}", other),
    }
    // unmanaging an unknown window does nothing
    let cmds = wm.unmanage(99);
    assert!(cmds.is_empty());
}

#[test]
fn switch_workspace_exports_and_reapplies_layout() {
    let mut wm = fresh_wm();
    manage_plain(&mut wm, 7, 107);
    let cmds = wm.switch_workspace(2);
    assert_eq!(wm.monitors[0].cur_workspace, 2);
    assert_eq!(cmds[0], WmCommand::ExportCurrentWorkspace(2));
    // workspace 2 is empty: no geometry commands follow
    assert_eq!(cmds.len(), 1);
    // switching back re-applies the layout of workspace 0 against the work area
    let cmds = wm.switch_workspace(0);
    assert_eq!(cmds[0], WmCommand::ExportCurrentWorkspace(0));
    assert_eq!(cmds.len(), 2);
    match &cmds[1] {
        WmCommand::MoveResize(w, _) => assert_eq!(*w, 7),
        other => panic!("expected a geometry command, got {:?}", other),
    }
    // an index that resolves to no workspace is ignored
    let cmds = wm.switch_workspace(99);
    assert!(cmds.is_empty());
    assert_eq!(wm.monitors[0].cur_workspace, 0);
}

#[test]
fn switch_workspace_remembers_previous() {
    let mut wm = fresh_wm();
    wm.switch_workspace(3);
    wm.switch_workspace(5);
    assert_eq!(wm.monitors[0].prev_workspace, 3);
    let action = BindingAction::PreviousWorkspace;
    action.execute(&mut wm, None);
    assert_eq!(wm.monitors[0].cur_workspace, 3);
}

#[test]
fn failed_pointer_capture_changes_nothing() {
    let mut wm = fresh_wm();
    manage_plain(&mut wm, 7, 107);
    let before_dims = wm.clients[0].dimensions;
    let before_focus = wm.focused;
    let started = wm.begin_drag(7, DragKind::Move, false, (10, 10));
    assert!(!started);
    assert!(wm.drag.is_none());
    assert_eq!(wm.clients[0].dimensions, before_dims);
    assert_eq!(wm.focused, before_focus);
}

#[test]
fn move_drag_translates_by_pointer_delta() {
    let mut wm = fresh_wm();
    manage_plain(&mut wm, 7, 107);
    let orig = wm.clients[0].dimensions;
    let started = wm.begin_drag(7, DragKind::Move, true, (500, 400));
    assert!(started);
    let cmds = wm.drag_motion((530, 390));
    assert_eq!(cmds.len(), 1);
    let expected = dims(orig.x + 30, orig.y - 10, orig.w, orig.h);
    assert_eq!(cmds[0], WmCommand::MoveResize(7, expected));
    assert_eq!(wm.clients[0].dimensions, expected);
    wm.end_drag();
    assert!(wm.drag.is_none());
}

#[test]
fn resize_drag_enforces_minimum_floor_symmetrically() {
    let mut wm = fresh_wm();
    manage_plain(&mut wm, 7, 107);
    wm.begin_drag(7, DragKind::Resize, true, (500, 400));
    // shrink far below the floor in both axes
    let cmds = wm.drag_motion((100, 0));
    assert_eq!(cmds.len(), 1);
    match &cmds[0] {
        WmCommand::MoveResize(_, d) => {
            assert_eq!(d.w, 40);
            assert_eq!(d.h, 40);
        },
        other => panic!("expected a geometry command, got {:?}", other),
    }
    // grow by the delta
    let cmds = wm.drag_motion((550, 430));
    match &cmds[0] {
        WmCommand::MoveResize(_, d) => {
            assert_eq!(d.w, 150);
            assert_eq!(d.h, 130);
        },
        other => panic!("expected a geometry command, got {:?}", other),
    }
}

#[test]
fn execute_spawn_exit_and_targetless_actions() {
    let mut wm = fresh_wm();
    let cmds = BindingAction::Execute(String::from("xterm")).execute(&mut wm, None);
    assert_eq!(cmds, vec![WmCommand::Spawn(String::from("xterm"))]);
    let cmds = BindingAction::Exit.execute(&mut wm, None);
    assert_eq!(cmds, vec![WmCommand::ExitWm]);
    // an action that needs a target is a no-op without one, never an error
    let cmds = BindingAction::CloseClient.execute(&mut wm, None);
    assert!(cmds.is_empty());
    let cmds = BindingAction::ToggleFloating.execute(&mut wm, None);
    assert!(cmds.is_empty());
}

#[test]
fn execute_close_uses_delete_convention_when_supported() {
    let mut wm = fresh_wm();
    wm.manage(7, 107, dims(0, 0, 100, 100), 0, 0, 0, 0, None, true);
    wm.manage(8, 108, dims(0, 0, 100, 100), 0, 0, 0, 0, None, false);
    let cmds = BindingAction::CloseClient.execute(&mut wm, Some(7));
    assert_eq!(cmds, vec![WmCommand::SendDelete(7)]);
    let cmds = BindingAction::CloseClient.execute(&mut wm, Some(8));
    assert_eq!(cmds, vec![WmCommand::KillWindow(8)]);
}

#[test]
fn execute_layout_parameter_actions() {
    let mut wm = fresh_wm();
    BindingAction::SetLayout(LayoutType::Dynamic).execute(&mut wm, None);
    assert_eq!(wm.monitors[0].workspaces[0].cur_layout, LayoutType::Dynamic);
    BindingAction::IncGaps(4).execute(&mut wm, None);
    assert_eq!(wm.monitors[0].workspaces[0].gap_width, 4);
    BindingAction::IncNMain(2).execute(&mut wm, None);
    assert_eq!(wm.monitors[0].workspaces[0].nmain, 3);
    BindingAction::ChangeMainRatio(-100).execute(&mut wm, None);
    assert_eq!(wm.monitors[0].workspaces[0].main_ratio, 450);
    BindingAction::CycleLayout.execute(&mut wm, None);
    assert_eq!(wm.monitors[0].workspaces[0].cur_layout, LayoutType::Monocle);
}

#[test]
fn execute_move_main_promotes_client() {
    let mut wm = fresh_wm();
    manage_plain(&mut wm, 7, 107);
    manage_plain(&mut wm, 8, 108);
    manage_plain(&mut wm, 9, 109);
    // list is [9, 8, 7]; promote 7
    BindingAction::MoveMain.execute(&mut wm, Some(7));
    assert_eq!(wm.monitors[0].workspaces[0].clients().as_slice(), &[7, 9, 8]);
}

#[test]
fn execute_move_workspace_moves_client_between_lists() {
    let mut wm = fresh_wm();
    manage_plain(&mut wm, 7, 107);
    manage_plain(&mut wm, 8, 108);
    BindingAction::MoveWorkspace(4).execute(&mut wm, Some(7));
    assert_eq!(wm.monitors[0].workspaces[0].clients().as_slice(), &[8]);
    assert_eq!(wm.monitors[0].workspaces[4].clients().as_slice(), &[7]);
    // total client count is preserved
    assert_eq!(wm.clients.len(), 2);
}

#[test]
fn execute_cycle_client_moves_focus() {
    let mut wm = fresh_wm();
    manage_plain(&mut wm, 7, 107);
    manage_plain(&mut wm, 8, 108);
    manage_plain(&mut wm, 9, 109);
    // list is [9, 8, 7]; nothing focused yet, so cycling starts at the front
    let cmds = BindingAction::CycleClient(1).execute(&mut wm, None);
    assert_eq!(wm.focused, Some(8));
    assert_eq!(cmds[0], WmCommand::SetInputFocus(108));
    assert_eq!(cmds[1], WmCommand::ExportActiveWindow(8));
    // and wraps around the end
    BindingAction::CycleClient(-1).execute(&mut wm, None);
    assert_eq!(wm.focused, Some(9));
    BindingAction::CycleClient(-1).execute(&mut wm, None);
    assert_eq!(wm.focused, Some(7));
}

#[test]
fn handle_key_resolves_first_match_or_nothing() {
    let mut wm = fresh_wm();
    // Mod1+q is the built-in close binding; without a client it is a no-op
    let cmds = wm.handle_key(0x8, 0x71, None);
    assert!(cmds.is_empty());
    // an unbound key produces no action
    let cmds = wm.handle_key(0x8, 0x7a, None);
    assert!(cmds.is_empty());
    // Mod1+F3 switches to workspace 2 even with a lock bit set
    let cmds = wm.handle_key(0x8 | 0x2, 0xffbe + 2, None);
    assert_eq!(cmds[0], WmCommand::ExportCurrentWorkspace(2));
    assert_eq!(wm.monitors[0].cur_workspace, 2);
}

#[test]
fn focus_events_update_the_export() {
    let mut wm = fresh_wm();
    manage_plain(&mut wm, 7, 107);
    let cmds = wm.handle_focus(107);
    assert_eq!(wm.focused, Some(7));
    assert_eq!(cmds, vec![WmCommand::ExportActiveWindow(7)]);
    let cmds = wm.handle_unfocus(107);
    assert_eq!(wm.focused, None);
    assert_eq!(cmds, vec![WmCommand::ExportActiveWindow(0)]);
    // a frame no client owns is ignored
    assert!(wm.handle_focus(999).is_empty());
}

#[test]
fn pointer_entering_a_frame_transfers_focus() {
    let mut wm = fresh_wm();
    manage_plain(&mut wm, 7, 107);
    let cmds = wm.pointer_entered(107);
    assert_eq!(cmds, vec![WmCommand::SetInputFocus(107)]);
    assert!(wm.pointer_entered(999).is_empty());
}

#[test]
fn activation_raises_and_focuses() {
    let mut wm = fresh_wm();
    manage_plain(&mut wm, 7, 107);
    manage_plain(&mut wm, 8, 108);
    // stacking is bottom-to-top creation order so far
    assert_eq!(wm.stacking.as_slice(), &[7, 8]);
    let cmds = wm.activate_client(7);
    assert_eq!(cmds[0], WmCommand::RaiseWindow(7));
    assert_eq!(cmds[1], WmCommand::SetInputFocus(107));
    assert_eq!(cmds[2], WmCommand::ExportActiveWindow(7));
    // the activated client moved to the top of the stacking order,
    // and the new order was exported
    assert_eq!(wm.stacking.as_slice(), &[8, 7]);
    match &cmds[3] {
        WmCommand::ExportClientListStacking(list) => assert_eq!(list.as_slice(), &[8, 7]),
        other => panic!("expected a stacking export, got {:?}", other),
    }
    assert_eq!(wm.focused, Some(7));
}

#[test]
fn fullscreen_toggle_updates_state_hint() {
    let mut wm = fresh_wm();
    manage_plain(&mut wm, 7, 107);
    let cmds = BindingAction::ToggleFullscreen.execute(&mut wm, Some(7));
    assert!(wm.clients[0].fullscreen);
    assert_eq!(cmds[0], WmCommand::MoveResize(7, dims(0, 0, 800, 600)));
    assert_eq!(cmds[1], WmCommand::SetFullscreenHint(7, true));
    let cmds = BindingAction::ToggleFullscreen.execute(&mut wm, Some(7));
    assert!(!wm.clients[0].fullscreen);
    assert_eq!(cmds.last().unwrap(), &WmCommand::SetFullscreenHint(7, false));
}

#[test]
fn work_area_change_reapplies_layout() {
    let mut wm = fresh_wm();
    manage_plain(&mut wm, 7, 107);
    {
        let ws = &mut wm.monitors[0].workspaces[0];
        ws.set_layout(LayoutType::Monocle);
    }
    // a bar reserves the top 30 pixels
    let cmds = wm.update_window_area(0, dims(0, 30, 800, 570));
    assert_eq!(wm.monitors[0].config.win_area, dims(0, 30, 800, 570));
    assert_eq!(wm.monitors[0].workspaces[5].win_area, dims(0, 30, 800, 570));
    assert_eq!(cmds, vec![WmCommand::MoveResize(7, dims(0, 30, 800, 570))]);
}

#[test]
fn unmap_during_reparenting_only_clears_the_flag() {
    let mut wm = fresh_wm();
    manage_plain(&mut wm, 7, 107);
    assert!(wm.clients[0].reparenting);
    let cmds = wm.on_unmap(7, false);
    assert!(cmds.is_empty());
    assert!(!wm.clients[0].reparenting);
    // the next unmap is a genuine withdrawal
    let cmds = wm.on_unmap(7, false);
    assert!(cmds.contains(&WmCommand::DestroyFrame(107)));
    assert!(wm.clients.is_empty());
}

#[test]
fn scenario_three_clients_dynamic_layout() {
    // three clients on one workspace, dynamic layout, one main client,
    // ratio one half, zero gap, work area 800x600
    let mut wm = fresh_wm();
    manage_plain(&mut wm, 1, 101);
    manage_plain(&mut wm, 2, 102);
    manage_plain(&mut wm, 3, 103);
    {
        let ws = &mut wm.monitors[0].workspaces[0];
        ws.set_layout(LayoutType::Dynamic);
        ws.change_main_ratio(-50);  // 550 -> 500
    }
    // list order is [3, 2, 1]
    let cmds = wm.relayout_workspace(0, 0);
    assert_eq!(
        cmds,
        vec![
            WmCommand::MoveResize(3, dims(0, 0, 400, 600)),
            WmCommand::MoveResize(2, dims(400, 0, 400, 300)),
            WmCommand::MoveResize(1, dims(400, 300, 400, 300)),
        ]
    );
    // the cached geometry mirrors the commands
    assert_eq!(wm.clients[2].dimensions, dims(0, 0, 400, 600));
}
