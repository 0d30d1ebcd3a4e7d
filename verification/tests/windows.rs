use cursor_clip::active_window::{
    after_round, focused_app_id, focused_window_is_terminal, is_terminal, is_terminal_name,
    ActiveWindowState, RoundOutcome, FOCUS_ROUNDS,
};
use cursor_clip::fixed::{Fixed, Geometry};
use cursor_clip::inspect::{
    missing_global_message, shm_file_name, AppState, BufferAction, HandleEvent, PointerEvent,
    RenderOutcome, Window,
};
use cursor_clip::paint::{fill_rect, paint_border, BORDER_COLOR};
use cursor_clip::report::describe_geometry;
use cursor_clip::virtual_keyboard::{
    keymap_file_name, paste_via_virtual_keyboard_shortcut, setup_failed, step_failed, FlushPoint,
    KeyStep, SetupStage,
};
use cursor_clip::wire::ByteOrder;

const LE: ByteOrder = ByteOrder::LittleEndian;

fn at(x: i32, y: i32) -> PointerEvent {
    PointerEvent::At(Fixed { raw: x * 256 }, Fixed { raw: y * 256 })
}

fn rect(x: i32, y: i32, width: i32, height: i32) -> Geometry {
    Geometry { x, y, width, height }
}

#[test]
fn the_activated_window_has_the_focus() {
    let mut state = ActiveWindowState::new(true);
    assert_eq!(focused_app_id(&state), None);
    state.on_toplevel(1, 101);
    state.on_toplevel(2, 102);
    state.on_app_id(1, "foot".to_string());
    state.on_app_id(2, "firefox".to_string());
    state.on_state(102, &[2, 0, 0, 0], LE);
    assert_eq!(focused_app_id(&state), Some("firefox".to_string()));
    state.on_state(101, &[0, 0, 0, 0, 1, 0, 0, 0], LE);
    assert_eq!(focused_app_id(&state), Some("firefox".to_string()));
    state.on_state(101, &[0, 0, 0, 0, 2, 0, 0, 0], LE);
    assert_eq!(focused_app_id(&state), Some("foot".to_string()));
    state.on_state(999, &[2, 0, 0, 0], LE);
    assert_eq!(focused_app_id(&state), Some("foot".to_string()));
    assert!(!state.done);
    state.on_done();
    assert!(state.done);
}

#[test]
fn a_window_that_is_no_longer_activated_loses_the_focus() {
    let mut state = ActiveWindowState::new(true);
    state.on_toplevel(1, 101);
    state.on_app_id(1, "foot".to_string());
    state.on_toplevel(2, 102);
    state.on_app_id(2, "firefox".to_string());
    state.on_state(101, &[2, 0, 0, 0], LE);
    state.on_state(102, &[], LE);
    assert_eq!(focused_app_id(&state), Some("foot".to_string()));
    state.on_state(101, &[], LE);
    assert_eq!(state.activated_ext, None);
    assert_eq!(focused_app_id(&state), None);
    state.on_state(102, &[2, 0, 0, 0], LE);
    state.on_state(101, &[0, 0, 0, 0], LE);
    assert_eq!(focused_app_id(&state), Some("firefox".to_string()));
}

#[test]
fn without_the_extension_nothing_has_the_focus() {
    let mut state = ActiveWindowState::new(false);
    state.on_toplevel(1, 101);
    state.on_app_id(1, "foot".to_string());
    state.on_state(101, &[2, 0, 0, 0], LE);
    assert_eq!(focused_app_id(&state), None);
    let mut nameless = ActiveWindowState::new(true);
    nameless.on_toplevel(1, 101);
    nameless.on_state(101, &[2, 0, 0, 0], LE);
    assert_eq!(focused_app_id(&nameless), None);
}

#[test]
fn terminals_are_known_by_their_names() {
    for name in [
        "com.system76.CosmicTerm", "org.kde.konsole", "Alacritty", "kitty", "foot", "footclient",
        "org.wezfurlong.wezterm", "XTerm", "terminator", "com.gexperts.Tilix", "org.gnome.Ptyxis",
        "com.raggesilver.BlackBox", "contour", "sakura", "guake", "yakuake", "org.gnome.Terminal",
        "org.gnome.Console",
    ] {
        assert!(is_terminal(name), "{}", name);
        assert!(focused_window_is_terminal(Some(name)));
    }
    for name in ["firefox", "org.gnome.Nautilus", "", "term", "code"] {
        assert!(!is_terminal(name), "{}", name);
        assert!(!focused_window_is_terminal(Some(name)));
    }
    assert!(!focused_window_is_terminal(None));
    assert!(is_terminal_name("xfce4-terminal"));
    assert!(!is_terminal_name("XFCE4-TERMINAL"));
}

#[test]
fn round_trips_are_bounded() {
    assert_eq!(after_round(1, FOCUS_ROUNDS, true, false), RoundOutcome::Stop);
    assert_eq!(after_round(1, FOCUS_ROUNDS, false, true), RoundOutcome::Stop);
    assert_eq!(after_round(1, FOCUS_ROUNDS, false, false), RoundOutcome::PauseAndGoOn);
    assert_eq!(after_round(19, FOCUS_ROUNDS, false, false), RoundOutcome::PauseAndGoOn);
    assert_eq!(after_round(20, FOCUS_ROUNDS, false, false), RoundOutcome::PauseAndStop);
}

#[test]
fn a_plain_paste_is_control_v() {
    let steps = paste_via_virtual_keyboard_shortcut(false);
    assert_eq!(
        steps,
        vec![
            KeyStep::Key { code: 1, pressed: true },
            KeyStep::Modifiers(4),
            KeyStep::Flush(FlushPoint::ModifiersDown),
            KeyStep::Sleep(10),
            KeyStep::Key { code: 2, pressed: true },
            KeyStep::Flush(FlushPoint::VDown),
            KeyStep::Sleep(6),
            KeyStep::Key { code: 2, pressed: false },
            KeyStep::Flush(FlushPoint::VUp),
            KeyStep::Sleep(6),
            KeyStep::Modifiers(0),
            KeyStep::Key { code: 1, pressed: false },
            KeyStep::Flush(FlushPoint::Shortcut),
            KeyStep::Sleep(20),
            KeyStep::Settle,
            KeyStep::Destroy,
            KeyStep::RemoveKeymap,
            KeyStep::LastFlush,
        ]
    );
}

#[test]
fn a_terminal_paste_holds_shift_as_well() {
    let steps = paste_via_virtual_keyboard_shortcut(true);
    assert_eq!(steps[1], KeyStep::Key { code: 3, pressed: true });
    assert_eq!(steps[2], KeyStep::Modifiers(5));
    let mut held: Vec<u32> = Vec::new();
    for step in steps {
        if let KeyStep::Key { code, pressed } = step {
            if pressed {
                held.push(code);
            } else {
                held.retain(|k| *k != code);
            }
            if code == 2 && pressed {
                assert_eq!(held, vec![1, 3, 2]);
            }
        }
    }
    assert!(held.is_empty());
}

#[test]
fn paste_failures_are_worded() {
    let flush = |p| step_failed(KeyStep::Flush(p), "x");
    assert_eq!(flush(FlushPoint::ModifiersDown), Some("Failed to flush modifier keys down: x".to_string()));
    assert_eq!(flush(FlushPoint::VDown), Some("Failed to flush V down: x".to_string()));
    assert_eq!(flush(FlushPoint::VUp), Some("Failed to flush V up: x".to_string()));
    assert_eq!(flush(FlushPoint::Shortcut), Some("Failed to flush virtual keyboard shortcut: x".to_string()));
    assert_eq!(step_failed(KeyStep::Settle, "x"), None);
    assert_eq!(step_failed(KeyStep::LastFlush, "x"), None);
    assert_eq!(setup_failed(SetupStage::Connection, "x"), "Wayland connection failed: x");
    assert_eq!(setup_failed(SetupStage::Registry, "x"), "x");
    assert_eq!(setup_failed(SetupStage::Seat, "x"), "No wl_seat found for virtual keyboard");
    assert_eq!(
        setup_failed(SetupStage::Manager, "x"),
        "Compositor does not support zwp_virtual_keyboard_manager_v1"
    );
    assert_eq!(setup_failed(SetupStage::KeymapFile, "x"), "Failed to create temporary keymap file: x");
    assert_eq!(setup_failed(SetupStage::KeymapWrite, "x"), "Failed to write keymap: x");
    assert_eq!(setup_failed(SetupStage::KeymapFlush, "x"), "Failed to flush keymap: x");
    assert_eq!(setup_failed(SetupStage::Roundtrip, "x"), "Wayland roundtrip failed: x");
    assert_eq!(keymap_file_name(42, 1700000000), "cursor-clip-keymap-42-1700000000.xkb");
}

#[test]
fn states_have_labels_in_a_fixed_order() {
    let mut window = Window::blank();
    assert_eq!(window.state_labels(), "(none)");
    window.states = vec![4, 3, 2, 1, 0];
    assert_eq!(window.state_labels(), "activated, maximized, minimized, fullscreen, sticky");
    window.states = vec![7, 1];
    assert_eq!(window.state_labels(), "minimized");
    assert!(window.has_state(7));
    assert!(!window.has_state(0));
    assert!(!window.contains(Fixed { raw: 0 }, Fixed { raw: 0 }));
}

#[test]
fn rectangles_are_worded() {
    assert_eq!(describe_geometry(&Some(rect(-5, 7, 640, 480))), "640x480 at (-5, 7)");
    assert_eq!(describe_geometry(&None), "(unknown)");
}

fn three_windows() -> AppState {
    let mut state = AppState::new(true, true, true);
    state.on_toplevel(1, 101);
    state.on_toplevel(2, 102);
    state.on_toplevel(3, 103);
    state.on_handle_event(1, HandleEvent::AppId("zed".to_string()));
    state.on_handle_event(1, HandleEvent::Title("Editor".to_string()));
    state.on_handle_event(1, HandleEvent::Identifier("id-1".to_string()));
    state.on_handle_event(2, HandleEvent::AppId("foot".to_string()));
    state.on_cosmic_geometry(101, rect(0, 0, 100, 100));
    state.on_cosmic_geometry(102, rect(10, 10, 20, 20));
    state.on_cosmic_geometry(103, rect(10, 10, 20, 20));
    state
}

#[test]
fn the_smallest_window_is_taken_for_the_topmost() {
    let mut state = three_windows();
    assert_eq!(state.window_under_cursor(), None);
    state.on_pointer(at(15, 15));
    assert_eq!(state.window_under_cursor(), Some(1));
    assert_eq!(state.under_cursor_rect(), Some(rect(10, 10, 20, 20)));
    state.on_cosmic_state(102, &[1, 0, 0, 0], LE);
    assert_eq!(state.window_under_cursor(), Some(2));
    state.on_handle_event(3, HandleEvent::Closed);
    assert_eq!(state.window_under_cursor(), Some(0));
    state.on_pointer(at(100, 100));
    assert_eq!(state.window_under_cursor(), None);
    assert_eq!(state.under_cursor_rect(), None);
    state.on_pointer(PointerEvent::Leave);
    assert_eq!(state.cursor, None);
}

#[test]
fn a_closed_window_is_forgotten() {
    let mut state = three_windows();
    state.on_handle_event(2, HandleEvent::Closed);
    let handles: Vec<u64> = state.windows.iter().map(|w| w.0).collect();
    assert_eq!(handles, vec![1, 3]);
    state.on_cosmic_geometry(102, rect(1, 1, 1, 1));
    state.on_cosmic_state(555, &[2, 0, 0, 0], LE);
    assert_eq!(state.windows.len(), 2);
    state.on_handle_event(9, HandleEvent::Closed);
    assert_eq!(state.windows.len(), 2);
    state.on_handle_event(9, HandleEvent::Other);
    assert_eq!(state.windows.len(), 3);
    state.on_toplevel(9, 109);
    assert_eq!(state.windows.len(), 3);
}

#[test]
fn events_mark_the_report_as_stale() {
    let mut state = AppState::new(true, true, true);
    assert!(!state.dirty);
    state.on_pointer(PointerEvent::Other);
    state.on_info_done();
    assert!(!state.dirty);
    assert!(state.done);
    state.on_cosmic_geometry(1, rect(0, 0, 1, 1));
    assert!(state.dirty);
}

#[test]
fn the_report_lists_every_window() {
    let mut state = three_windows();
    state.on_pointer(PointerEvent::At(Fixed { raw: 15 * 256 + 128 }, Fixed { raw: 12 * 256 + 1 }));
    state.on_cosmic_state(102, &[2, 0, 0, 0], LE);
    let expected = "\u{1b}[2J\u{1b}[3J\u{1b}[HCursor at (16, 12)\n\n\
Window under cursor:\n    app_id     : foot\n    title      : (unknown)\n    identifier : (unknown)\n\
    \u{20}   states     : activated\n    geometry   : 20x20 at (10, 10)\n\
\nAll windows (3):\n\
    \u{20}   app_id     title      geometry         \n\
    \u{20}   ---------  ---------  -----------------\n\
    \u{20}   (unknown)  (unknown)  20x20 at (10, 10)\n\
    \u{20}   foot       (unknown)  20x20 at (10, 10)\n\
    \u{20}   zed        Editor     100x100 at (0, 0)\n\
\n(Press Ctrl-C to quit.)\n";
    assert_eq!(state.print_report(), expected);
}

#[test]
fn the_report_says_when_nothing_is_there() {
    let mut state = AppState::new(true, true, true);
    let table = "\nAll windows (0):\n    app_id  title  geometry\n    ------  -----  --------\n\n(Press Ctrl-C to quit.)\n";
    let clear = "\u{1b}[2J\u{1b}[3J\u{1b}[H";
    assert_eq!(
        state.print_report(),
        format!("{}Pointer is not over the overlay (off-screen?).\n{}", clear, table)
    );
    state.on_pointer(at(-3, 4));
    assert_eq!(
        state.print_report(),
        format!("{}Cursor at (-3, 4)\n\nNo window under the cursor.\n{}", clear, table)
    );
}

#[test]
fn columns_are_as_wide_as_the_longest_cell_in_bytes() {
    let mut state = AppState::new(true, true, true);
    state.on_toplevel(1, 101);
    state.on_handle_event(1, HandleEvent::AppId("ééééé".to_string()));
    let report = state.print_report();
    assert!(report.contains(&format!("    {}  ", "-".repeat(10))));
    assert!(report.contains(&format!("    {:<10}  {:<9}  (unknown)\n", "ééééé", "(unknown)")));
}

#[test]
fn a_rectangle_is_clipped_to_the_grid() {
    let mut pixels = vec![0u32; 12];
    fill_rect(&mut pixels, 4, 3, -1, 1, 3, 9, 5);
    assert_eq!(pixels, vec![0, 0, 0, 0, 5, 5, 0, 0, 5, 5, 0, 0]);
    fill_rect(&mut pixels, 4, 3, 3, 0, 5, 1, 6);
    assert_eq!(pixels[3], 6);
    let before = pixels.clone();
    fill_rect(&mut pixels, 4, 3, 1, 1, -2, 5, 9);
    fill_rect(&mut pixels, 4, 3, 4, 0, 2, 2, 9);
    assert_eq!(pixels, before);
}

#[test]
fn a_border_is_four_pixels_thick() {
    let (w, h) = (20i32, 12i32);
    let mut pixels = vec![7u32; (w * h) as usize];
    paint_border(&mut pixels, w, h, Some(rect(2, 1, 15, 10)));
    for y in 0..h {
        for x in 0..w {
            let inside = (2..17).contains(&x) && (1..11).contains(&y);
            let core = (6..13).contains(&x) && (5..7).contains(&y);
            let expected = if inside && !core { BORDER_COLOR } else { 0 };
            assert_eq!(pixels[(y * w + x) as usize], expected, "({}, {})", x, y);
        }
    }
    paint_border(&mut pixels, w, h, None);
    assert_eq!(pixels, vec![0; (w * h) as usize]);
}

#[test]
fn the_overlay_is_painted_only_when_the_mark_moves() {
    let mut state = three_windows();
    let mut pixels = vec![9u32; 40 * 40];
    assert_eq!(state.render(&mut pixels), RenderOutcome::Unchanged);
    assert_eq!(
        state.on_configure(40, 40),
        Some(BufferAction::Allocate { stride: 160, size: 6400 })
    );
    assert!(state.mapped);
    assert_eq!(state.render(&mut pixels), RenderOutcome::NoBuffer);
    assert_eq!(state.on_configure(40, 40), Some(BufferAction::Allocate { stride: 160, size: 6400 }));
    state.buffer_ready(40, 40);
    assert_eq!(state.render(&mut pixels), RenderOutcome::Painted);
    assert_eq!(pixels, vec![0; 1600]);
    state.on_pointer(at(12, 12));
    assert_eq!(state.render(&mut pixels), RenderOutcome::Painted);
    assert_eq!(pixels[10 * 40 + 10], BORDER_COLOR);
    assert_eq!(state.render(&mut pixels), RenderOutcome::Unchanged);
    state.on_pointer(at(13, 13));
    assert_eq!(state.render(&mut pixels), RenderOutcome::Unchanged);
    assert_eq!(state.on_configure(40, 40), Some(BufferAction::Keep));
    assert_eq!(state.on_configure(0, 40), None);
    assert_eq!(AppState::new(true, false, true).on_configure(5, 5), Some(BufferAction::Unavailable));
}

#[test]
fn inspector_messages_are_worded() {
    assert_eq!(
        missing_global_message("wl_shm", "not there"),
        "Required Wayland global 'wl_shm' is not available: not there"
    );
    assert_eq!(shm_file_name(77), "getappid-shm-77.bin");
}
