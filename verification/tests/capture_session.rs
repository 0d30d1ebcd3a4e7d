use cursor_clip::capture_layer::{
    cleanup_capture_layer, cleanup_update_layer, LayerObject, LayerRole, Request, State,
};
use cursor_clip::initializer::{
    accepted_versions, buffer_made, create_surfaces, create_transparent_buffer,
    describe_buffer_failure, init_wayland_protocols, missing_message, setup_capture_layer,
    shm_file_name, BindStep, BufferPlan, Global,
};
use cursor_clip::session::{
    dispatch_wayland_or_toggle, AfterCheck, AfterDispatch, MainLoop, QuitStep, Session, WaitAction,
    WaitEvent,
};
use cursor_clip::toggle::{
    gave_up_message, AcceptOutcome, AcceptStep, AcquireStep, Acquisition, SocketCall,
    SocketOutcome, ToggleServer,
};

/// A path in a file system, as far as sockets at it go.
struct Socket {
    exists: bool,
    listening: bool,
    waiting: u32,
}

impl Socket {
    fn call(&mut self, call: SocketCall) -> SocketOutcome {
        match call {
            SocketCall::Bind if self.exists => SocketOutcome::AddressInUse,
            SocketCall::Bind => {
                self.exists = true;
                self.listening = true;
                SocketOutcome::Done
            }
            SocketCall::Connect if self.listening => {
                self.waiting += 1;
                SocketOutcome::Done
            }
            SocketCall::Connect if self.exists => SocketOutcome::ConnectionRefused,
            SocketCall::Connect => SocketOutcome::NotFound,
            SocketCall::Remove if self.exists => {
                self.exists = false;
                self.listening = false;
                SocketOutcome::Done
            }
            SocketCall::Remove => SocketOutcome::NotFound,
        }
    }

    fn acquire(&mut self) -> AcquireStep {
        let (server, mut attempt) = ToggleServer::acquire(Some("/run/user/1000")).unwrap();
        assert_eq!(server.socket_path, "/run/user/1000/cursor-clip/overlay.sock");
        loop {
            let outcome = self.call(attempt.call);
            match ToggleServer::acquire_at(attempt, outcome) {
                AcquireStep::Try(next) => attempt = next,
                over => return over,
            }
        }
    }

    fn take_toggle_request(&mut self) -> bool {
        let mut requested = false;
        loop {
            let outcome = if self.waiting > 0 {
                self.waiting -= 1;
                AcceptOutcome::Accepted
            } else {
                AcceptOutcome::WouldBlock
            };
            match ToggleServer::take_toggle_request(requested, outcome) {
                AcceptStep::Again(seen) => requested = seen,
                AcceptStep::Done(seen) => return seen,
                AcceptStep::Failed => panic!("accepting failed"),
            }
        }
    }
}

#[test]
fn second_instance_requests_toggle_instead_of_acquiring() {
    let mut socket = Socket { exists: false, listening: false, waiting: 0 };
    assert_eq!(socket.acquire(), AcquireStep::Acquired);
    assert_eq!(socket.acquire(), AcquireStep::AlreadyActive);
    assert_eq!(socket.acquire(), AcquireStep::AlreadyActive);
    assert!(socket.exists && socket.listening);
    assert!(socket.take_toggle_request());
    assert!(!socket.take_toggle_request());
}

#[test]
fn stale_socket_is_replaced() {
    let mut socket = Socket { exists: true, listening: false, waiting: 0 };
    assert_eq!(socket.acquire(), AcquireStep::Acquired);
    assert!(socket.listening);
}

#[test]
fn acquiring_gives_up_after_two_attempts() {
    let (_, mut attempt) = ToggleServer::acquire(Some("/run")).unwrap();
    let mut calls = Vec::new();
    let last = loop {
        calls.push(attempt.call);
        let outcome = match attempt.call {
            SocketCall::Bind => SocketOutcome::AddressInUse,
            SocketCall::Connect => SocketOutcome::NotFound,
            SocketCall::Remove => SocketOutcome::NotFound,
        };
        match ToggleServer::acquire_at(attempt, outcome) {
            AcquireStep::Try(next) => attempt = next,
            over => break over,
        }
    };
    assert_eq!(last, AcquireStep::GaveUp);
    assert_eq!(
        calls,
        vec![
            SocketCall::Bind, SocketCall::Connect, SocketCall::Remove,
            SocketCall::Bind, SocketCall::Connect, SocketCall::Remove,
        ]
    );
    assert_eq!(gave_up_message(), "could not acquire overlay control socket");
    assert!(ToggleServer::acquire(None).is_none());
}

#[test]
fn other_errors_end_an_acquisition() {
    let on = |call, outcome| ToggleServer::acquire_at(Acquisition { call, retries: 1 }, outcome);
    assert_eq!(on(SocketCall::Bind, SocketOutcome::OtherError), AcquireStep::Failed);
    assert_eq!(on(SocketCall::Bind, SocketOutcome::NotFound), AcquireStep::Failed);
    assert_eq!(on(SocketCall::Connect, SocketOutcome::OtherError), AcquireStep::Failed);
    assert_eq!(on(SocketCall::Connect, SocketOutcome::AddressInUse), AcquireStep::Failed);
    assert_eq!(on(SocketCall::Remove, SocketOutcome::OtherError), AcquireStep::Failed);
    assert_eq!(
        on(SocketCall::Remove, SocketOutcome::Done),
        AcquireStep::Try(Acquisition { call: SocketCall::Bind, retries: 0 })
    );
    assert_eq!(
        ToggleServer::take_toggle_request(true, AcceptOutcome::OtherError),
        AcceptStep::Failed
    );
}

fn started() -> State {
    let mut state = State::new();
    for global in [Global::Compositor, Global::LayerShell, Global::Seat, Global::Viewporter] {
        init_wayland_protocols(&mut state, global, true);
    }
    init_wayland_protocols(&mut state, Global::SinglePixelBufferManager, true);
    state
}

#[test]
fn interfaces_are_asked_for_in_order() {
    let mut state = State::new();
    let mut asked = Vec::new();
    let mut global = Global::Compositor;
    loop {
        asked.push(global);
        let bound = global != Global::Viewporter && global != Global::SinglePixelBufferManager;
        match init_wayland_protocols(&mut state, global, bound) {
            BindStep::Bind(next) => global = next,
            step => {
                assert_eq!(step, BindStep::Ready);
                break;
            }
        }
    }
    assert_eq!(
        asked,
        vec![
            Global::Compositor, Global::LayerShell, Global::Seat, Global::Viewporter,
            Global::SinglePixelBufferManager, Global::Shm,
        ]
    );
    assert!(state.interfaces.shm && !state.interfaces.viewporter);
    assert_eq!(accepted_versions(Global::Compositor), (4, 5));
    assert_eq!(accepted_versions(Global::LayerShell), (4, 4));
    assert_eq!(accepted_versions(Global::Shm), (1, 1));
    assert_eq!(
        init_wayland_protocols(&mut state, Global::SinglePixelBufferManager, true),
        BindStep::Ready
    );
}

#[test]
fn a_missing_interface_ends_the_start() {
    for global in [Global::Compositor, Global::LayerShell, Global::Seat, Global::Shm] {
        let mut state = State::new();
        assert_eq!(init_wayland_protocols(&mut state, global, false), BindStep::Exit(global));
        assert_eq!(state, State::new());
    }
    assert_eq!(
        missing_message(Global::Compositor).unwrap(),
        "Critical Wayland global object (interface) 'wl_compositor' is not available. \
         Your compositor did not advertise wl_compositor (v4-5), so we cannot create the surfaces required for the overlay. \
         Frontend cannot start, exiting."
    );
    assert_eq!(
        missing_message(Global::LayerShell).unwrap(),
        "Critical Wayland global object (interface) 'zwlr_layer_shell_v1' is not available. \
         Your current compositor likely does not support the wlr-layer-shell protocol (probably running GNOME). \
         Clipboard monitoring cannot function without it, exiting."
    );
    assert_eq!(
        missing_message(Global::Seat).unwrap(),
        "Critical Wayland interface 'wl_seat' is not available. \
         An input seat is required to receive pointer events for capture surface interactions. \
         Frontend cannot start, exiting."
    );
    assert_eq!(
        missing_message(Global::Shm).unwrap(),
        "Neither wp_single_pixel_buffer_manager_v1 nor wl_shm are available; cannot create buffers. Exiting."
    );
    assert_eq!(missing_message(Global::Viewporter), None);
}

#[test]
fn a_buffer_of_one_pixel_is_preferred() {
    assert_eq!(create_transparent_buffer(&started()), Ok(BufferPlan::SinglePixel));
    let mut state = State::new();
    assert_eq!(
        create_transparent_buffer(&state),
        Err("wl_shm not available for fallback".to_string())
    );
    state.interfaces.shm = true;
    let plan = create_transparent_buffer(&state).unwrap();
    assert_eq!(plan, BufferPlan::SharedMemory { size: 4, width: 1, height: 1, stride: 4 });
    buffer_made(&mut state, plan);
    assert!(state.backing.transparent_buffer && state.backing.shm_file && state.backing.shm_pool);
    let mut single = started();
    buffer_made(&mut single, BufferPlan::SinglePixel);
    assert!(single.backing.transparent_buffer && !single.backing.shm_pool);
    assert_eq!(describe_buffer_failure("x"), "Failed to create transparent buffer: x");
    assert_eq!(shm_file_name(12, 34), "cursor-clip-shm-12-34.bin");
}

fn set_up() -> State {
    let mut state = started();
    assert_eq!(
        create_surfaces(&mut state),
        vec![Request::CreateSurface(LayerRole::Capture), Request::CreateSurface(LayerRole::Update)]
    );
    buffer_made(&mut state, BufferPlan::SinglePixel);
    assert_eq!(
        setup_capture_layer(&mut state, 7),
        vec![
            Request::CreateLayerSurface(LayerRole::Capture),
            Request::SetExclusiveZone { role: LayerRole::Capture, zone: -1 },
            Request::AnchorToAllEdges(LayerRole::Capture),
            Request::Commit(LayerRole::Capture),
        ]
    );
    state
}

#[test]
fn a_configured_capture_layer_is_shown() {
    let mut state = set_up();
    let role = LayerRole::Capture;
    assert_eq!(
        state.on_configure(7, 11, 1920, 1080),
        vec![
            Request::AckConfigure(11),
            Request::Attach(role),
            Request::CreateViewport(role),
            Request::SetDestination { role, width: 1920, height: 1080 },
            Request::Damage { role, width: 1920, height: 1080 },
            Request::RequestFrame(role),
            Request::Commit(role),
        ]
    );
    assert!(state.capture_layer_ready && state.capture.viewport && state.capture.frame_callback);
    assert_eq!((state.monitor_width, state.monitor_height), (1920, 1080));
    assert_eq!(
        state.on_configure(7, 12, 0, 1080),
        vec![
            Request::AckConfigure(12),
            Request::Attach(role),
            Request::SetDestination { role, width: 0, height: 1080 },
            Request::Damage { role, width: 0, height: 1080 },
            Request::Commit(role),
        ]
    );
    assert_eq!((state.monitor_width, state.monitor_height), (1920, 1080));
    assert_eq!(state.on_configure(99, 13, 5, 5), vec![Request::AckConfigure(13)]);
}

#[test]
fn the_update_layer_asks_for_a_frame_each_time() {
    let mut state = set_up();
    state.interfaces.viewporter = false;
    state.update.layer_surface = Some(8);
    let role = LayerRole::Update;
    for serial in [1, 2] {
        assert_eq!(
            state.on_configure(8, serial, 10, 20),
            vec![
                Request::AckConfigure(serial),
                Request::Attach(role),
                Request::Damage { role, width: 10, height: 20 },
                Request::RequestFrame(role),
                Request::Commit(role),
            ]
        );
    }
    assert!(!state.capture_layer_ready);
    state.update.surface = false;
    assert_eq!(state.on_configure(8, 3, 10, 20), vec![Request::AckConfigure(3)]);
    state.capture.surface = false;
    assert_eq!(state.on_configure(7, 4, 10, 20), vec![Request::AckConfigure(4)]);
}

#[test]
fn lengths_wrap_like_a_cast() {
    let mut state = set_up();
    state.on_configure(99, 1, u32::MAX, 0x8000_0000);
    assert_eq!(state.monitor_width, u32::MAX as i32);
    assert_eq!(state.monitor_height, 0x8000_0000u32 as i32);
}

#[test]
fn a_cleanup_destroys_everything_once() {
    let mut state = set_up();
    state.on_configure(7, 1, 100, 100);
    state.update.layer_surface = Some(8);
    state.on_configure(8, 2, 100, 100);
    state.backing.shm_pool = true;
    state.backing.shm_file = true;
    state.capture_layer_clicked = true;
    let mut both = state;
    let destroy = |o| Request::Destroy(o);
    let update = vec![
        destroy(LayerObject::Viewport(LayerRole::Update)),
        destroy(LayerObject::LayerSurface(LayerRole::Update)),
        destroy(LayerObject::Surface(LayerRole::Update)),
    ];
    assert_eq!(
        cleanup_capture_layer(&mut both),
        vec![
            destroy(LayerObject::Viewport(LayerRole::Capture)),
            update[0],
            update[1],
            update[2],
            destroy(LayerObject::LayerSurface(LayerRole::Capture)),
            destroy(LayerObject::Surface(LayerRole::Capture)),
            destroy(LayerObject::TransparentBuffer),
            destroy(LayerObject::ShmPool),
            destroy(LayerObject::ShmFile),
        ]
    );
    assert!(!both.capture_layer_clicked && both.capture_layer_ready);
    assert!(both.capture.frame_callback && !both.update.frame_callback);
    assert!(cleanup_capture_layer(&mut both).is_empty());
    assert_eq!(cleanup_update_layer(&mut state), update);
    assert!(cleanup_update_layer(&mut state).is_empty());
    assert_eq!(cleanup_capture_layer(&mut state).len(), 6);
    assert_eq!(state, both);
}

#[test]
fn quitting_is_remembered_until_it_is_reset() {
    let mut session = Session::new();
    assert!(!session.is_close_requested());
    assert!(session.request_quit().is_empty());
    assert!(session.is_close_requested());
    session.reset_close_flags();
    assert!(!session.is_close_requested());
    session.opened();
    assert_eq!(session.request_quit(), vec![QuitStep::QuitApplication, QuitStep::CloseWindow]);
    session.finished();
    assert!(session.is_close_requested());
    assert!(session.request_quit().is_empty());
}

#[test]
fn the_main_loop_opens_the_overlay_once() {
    let mut state = MainLoop::new();
    assert_eq!(state.on_dispatched(true, false), AfterDispatch::CheckClose);
    assert_eq!(state.on_checked(true, true), AfterCheck::GoOn);
    assert_eq!(state.on_dispatched(true, true), AfterDispatch::OpenOverlay);
    assert_eq!(state.on_checked(false, false), AfterCheck::IterateOverlay);
    assert_eq!(state.on_dispatched(true, true), AfterDispatch::CheckClose);
    assert_eq!(state.on_checked(true, false), AfterCheck::CloseAndEnd);
    assert_eq!(state.on_checked(false, true), AfterCheck::CloseAndEnd);
    assert_eq!(state.on_dispatched(false, true), AfterDispatch::CleanUpAndEnd);
}

fn run(events: &[WaitEvent]) -> Option<WaitAction> {
    let mut action = WaitAction::CheckToggleFirst;
    for event in events {
        action = dispatch_wayland_or_toggle(action, *event)?;
    }
    Some(action)
}

#[test]
fn waiting_ends_with_events_or_a_toggle() {
    let quiet = [
        WaitEvent::Toggle(false), WaitEvent::Dispatched(0), WaitEvent::Flushed,
        WaitEvent::Toggle(false), WaitEvent::Prepared(true),
    ];
    let then = |more: &[WaitEvent]| {
        let mut events = quiet.to_vec();
        events.extend_from_slice(more);
        run(&events)
    };
    assert_eq!(run(&[WaitEvent::Toggle(true)]), Some(WaitAction::Finish(false)));
    assert_eq!(
        run(&[WaitEvent::Toggle(false), WaitEvent::Dispatched(2)]),
        Some(WaitAction::Finish(true))
    );
    assert_eq!(then(&[]), Some(WaitAction::Poll));
    assert_eq!(then(&[WaitEvent::PollFailed { interrupted: true }]), Some(WaitAction::CheckToggle));
    assert_eq!(then(&[WaitEvent::PollFailed { interrupted: false }]), Some(WaitAction::Fail));
    let both = WaitEvent::Polled { compositor: true, toggle: true };
    assert_eq!(then(&[both, WaitEvent::Toggle(true)]), Some(WaitAction::Finish(false)));
    assert_eq!(then(&[both, WaitEvent::Toggle(false)]), Some(WaitAction::Finish(true)));
    let compositor = WaitEvent::Polled { compositor: true, toggle: false };
    assert_eq!(
        then(&[compositor, WaitEvent::EventsRead, WaitEvent::Dispatched(0)]),
        Some(WaitAction::Finish(true))
    );
    let nobody = WaitEvent::Polled { compositor: false, toggle: false };
    assert_eq!(then(&[nobody, WaitEvent::Toggle(true)]), Some(WaitAction::Finish(false)));
    assert_eq!(
        run(&[
            WaitEvent::Toggle(false), WaitEvent::Dispatched(0), WaitEvent::Flushed,
            WaitEvent::Toggle(false), WaitEvent::Prepared(false), WaitEvent::Dispatched(0),
        ]),
        Some(WaitAction::CheckToggle)
    );
    assert_eq!(run(&[WaitEvent::Flushed]), None);
    assert_eq!(dispatch_wayland_or_toggle(WaitAction::Finish(true), WaitEvent::Toggle(true)), None);
}
