//! The start of the capture layer: which interfaces of the compositor it needs,
//! how it gets a transparent buffer, and how its surfaces are set up.

use vstd::prelude::*;
use vstd::string::*;

use crate::capture_layer::{Backing, Interfaces, Layer, LayerRole, Request, State};
use crate::text::{append_decimal, describe_failure};

verus! {

/// The exclusive zone of a surface that neither takes room nor yields any.
pub const IGNORE_ZONES: i32 = -1;

/// The interfaces that are asked for.
#[derive(Clone, Copy, Debug, PartialEq, Eq, Structural)]
pub enum Global {
    Compositor,
    LayerShell,
    Seat,
    Viewporter,
    SinglePixelBufferManager,
    Shm,
}

/// What happens next at the start.
#[derive(Clone, Copy, Debug, PartialEq, Eq, Structural)]
pub enum BindStep {
    /// Ask for an interface.
    Bind(Global),
    /// All that is needed is there.
    Ready,
    /// An interface that is needed is missing.
    Exit(Global),
}

/// The versions of an interface that will do, from the least to the greatest.
pub open spec fn versions(global: Global) -> (u32, u32) {
    match global {
        Global::Compositor => (4, 5),
        Global::LayerShell => (4, 4),
        Global::Seat => (1, 1),
        Global::Viewporter => (1, 1),
        Global::SinglePixelBufferManager => (1, 1),
        Global::Shm => (1, 1),
    }
}

/// What is said about an interface that is missing, if it is needed.
pub open spec fn missing_text(global: Global) -> Option<Seq<char>> {
    match global {
        Global::Compositor => Some(
            "Critical Wayland global object (interface) 'wl_compositor' is not available. Your compositor did not advertise wl_compositor (v4-5), so we cannot create the surfaces required for the overlay. Frontend cannot start, exiting."@,
        ),
        Global::LayerShell => Some(
            "Critical Wayland global object (interface) 'zwlr_layer_shell_v1' is not available. Your current compositor likely does not support the wlr-layer-shell protocol (probably running GNOME). Clipboard monitoring cannot function without it, exiting."@,
        ),
        Global::Seat => Some(
            "Critical Wayland interface 'wl_seat' is not available. An input seat is required to receive pointer events for capture surface interactions. Frontend cannot start, exiting."@,
        ),
        Global::Viewporter => None,
        Global::SinglePixelBufferManager => None,
        Global::Shm => Some(
            "Neither wp_single_pixel_buffer_manager_v1 nor wl_shm are available; cannot create buffers. Exiting."@,
        ),
    }
}

/// The step after the compositor answered. Shared memory is asked for only if
/// there are no single-pixel buffers.
pub open spec fn bind_step(global: Global, bound: bool) -> BindStep {
    match (global, bound) {
        (Global::Compositor, true) => BindStep::Bind(Global::LayerShell),
        (Global::LayerShell, true) => BindStep::Bind(Global::Seat),
        (Global::Seat, true) => BindStep::Bind(Global::Viewporter),
        (Global::Viewporter, _) => BindStep::Bind(Global::SinglePixelBufferManager),
        (Global::SinglePixelBufferManager, true) => BindStep::Ready,
        (Global::SinglePixelBufferManager, false) => BindStep::Bind(Global::Shm),
        (Global::Shm, true) => BindStep::Ready,
        (missing, false) => BindStep::Exit(missing),
    }
}

/// The interfaces with the compositor's answer noted.
pub open spec fn with_global(interfaces: Interfaces, global: Global, bound: bool) -> Interfaces {
    match (global, bound) {
        (_, false) => interfaces,
        (Global::Compositor, true) => Interfaces { compositor: true, ..interfaces },
        (Global::LayerShell, true) => Interfaces { layer_shell: true, ..interfaces },
        (Global::Seat, true) => Interfaces { seat: true, ..interfaces },
        (Global::Viewporter, true) => Interfaces { viewporter: true, ..interfaces },
        (Global::SinglePixelBufferManager, true) => Interfaces {
            single_pixel_buffer_manager: true,
            ..interfaces
        },
        (Global::Shm, true) => Interfaces { shm: true, ..interfaces },
    }
}

/// The versions of an interface that will do.
pub fn accepted_versions(global: Global) -> (range: (u32, u32))
    ensures
        range == versions(global),
{
    match global {
        Global::Compositor => (4, 5),
        Global::LayerShell => (4, 4),
        Global::Seat | Global::Viewporter | Global::SinglePixelBufferManager | Global::Shm => (
            1,
            1,
        ),
    }
}

/// What is said about an interface that is missing, if it is needed.
pub fn missing_message(global: Global) -> (message: Option<String>)
    ensures
        crate::text::opt_text(message) == missing_text(global),
{
    match global {
        Global::Compositor => Some(
            "Critical Wayland global object (interface) 'wl_compositor' is not available. Your compositor did not advertise wl_compositor (v4-5), so we cannot create the surfaces required for the overlay. Frontend cannot start, exiting.".to_owned(),
        ),
        Global::LayerShell => Some(
            "Critical Wayland global object (interface) 'zwlr_layer_shell_v1' is not available. Your current compositor likely does not support the wlr-layer-shell protocol (probably running GNOME). Clipboard monitoring cannot function without it, exiting.".to_owned(),
        ),
        Global::Seat => Some(
            "Critical Wayland interface 'wl_seat' is not available. An input seat is required to receive pointer events for capture surface interactions. Frontend cannot start, exiting.".to_owned(),
        ),
        Global::Viewporter => None,
        Global::SinglePixelBufferManager => None,
        Global::Shm => Some(
            "Neither wp_single_pixel_buffer_manager_v1 nor wl_shm are available; cannot create buffers. Exiting.".to_owned(),
        ),
    }
}

fn note_global(interfaces: &mut Interfaces, global: Global)
    ensures
        *final(interfaces) == with_global(*old(interfaces), global, true),
{
    match global {
        Global::Compositor => interfaces.compositor = true,
        Global::LayerShell => interfaces.layer_shell = true,
        Global::Seat => interfaces.seat = true,
        Global::Viewporter => interfaces.viewporter = true,
        Global::SinglePixelBufferManager => interfaces.single_pixel_buffer_manager = true,
        Global::Shm => interfaces.shm = true,
    }
}

/// The compositor answered whether it offers an interface. The start begins with
/// [`Global::Compositor`].
pub fn init_wayland_protocols(state: &mut State, global: Global, bound: bool) -> (step: BindStep)
    ensures
        *final(state) == (State {
            interfaces: with_global(old(state).interfaces, global, bound),
            ..*old(state)
        }),
        step == bind_step(global, bound),
{
    if bound {
        note_global(&mut state.interfaces, global);
    }
    match (global, bound) {
        (Global::Compositor, true) => BindStep::Bind(Global::LayerShell),
        (Global::LayerShell, true) => BindStep::Bind(Global::Seat),
        (Global::Seat, true) => BindStep::Bind(Global::Viewporter),
        (Global::Viewporter, _) => BindStep::Bind(Global::SinglePixelBufferManager),
        (Global::SinglePixelBufferManager, true) => BindStep::Ready,
        (Global::SinglePixelBufferManager, false) => BindStep::Bind(Global::Shm),
        (Global::Shm, true) => BindStep::Ready,
        (missing, false) => BindStep::Exit(missing),
    }
}

/// How a transparent buffer of one pixel is made.
#[derive(Clone, Copy, Debug, PartialEq, Eq, Structural)]
pub enum BufferPlan {
    /// As a buffer of a single pixel, all of whose components are zero.
    SinglePixel,
    /// From a zeroed file in shared memory.
    SharedMemory { size: i32, width: i32, height: i32, stride: i32 },
}

/// How a transparent buffer is made, if it can be made at all.
pub open spec fn buffer_plan(state: State) -> Option<BufferPlan> {
    if state.interfaces.single_pixel_buffer_manager {
        Some(BufferPlan::SinglePixel)
    } else if state.interfaces.shm {
        Some(BufferPlan::SharedMemory { size: 4, width: 1, height: 1, stride: 4 })
    } else {
        None
    }
}

/// How a transparent buffer is made. Single-pixel buffers are preferred.
pub fn create_transparent_buffer(state: &State) -> (plan: Result<BufferPlan, String>)
    ensures
        match plan {
            Ok(p) => buffer_plan(*state) == Some(p),
            Err(message) => buffer_plan(*state) is None && message@
                == "wl_shm not available for fallback"@,
        },
{
    if state.interfaces.single_pixel_buffer_manager {
        Ok(BufferPlan::SinglePixel)
    } else if state.interfaces.shm {
        Ok(BufferPlan::SharedMemory { size: 4, width: 1, height: 1, stride: 4 })
    } else {
        Err("wl_shm not available for fallback".to_owned())
    }
}

/// The buffer was made. What backs it is kept as long as the buffer is.
pub fn buffer_made(state: &mut State, plan: BufferPlan)
    ensures
        *final(state) == (State {
            backing: Backing {
                transparent_buffer: true,
                shm_file: old(state).backing.shm_file || plan is SharedMemory,
                shm_pool: old(state).backing.shm_pool || plan is SharedMemory,
            },
            ..*old(state)
        }),
{
    if let BufferPlan::SharedMemory { .. } = plan {
        state.backing.shm_file = true;
        state.backing.shm_pool = true;
    }
    state.backing.transparent_buffer = true;
}

/// What is said when no buffer could be made.
pub fn describe_buffer_failure(reason: &str) -> (message: String)
    ensures
        message@ == crate::text::failure("Failed to create transparent buffer"@, reason@),
{
    describe_failure("Failed to create transparent buffer", reason)
}

/// The name of the file behind a buffer in shared memory. The process and the
/// time make it unique.
pub fn shm_file_name(pid: u32, nanos: u128) -> (name: String)
    ensures
        name@ == "cursor-clip-shm-"@ + crate::text::decimal(pid as nat) + "-"@
            + crate::text::decimal(nanos as nat) + ".bin"@,
{
    let mut name = "cursor-clip-shm-".to_owned();
    append_decimal(&mut name, pid as u128);
    name.append("-");
    append_decimal(&mut name, nanos);
    name.append(".bin");
    name
}

/// Makes the two surfaces, before the buffer.
pub fn create_surfaces(state: &mut State) -> (requests: Vec<Request>)
    requires
        old(state).interfaces.compositor,
    ensures
        *final(state) == (State {
            capture: Layer { surface: true, ..old(state).capture },
            update: Layer { surface: true, ..old(state).update },
            ..*old(state)
        }),
        requests@ == seq![
            Request::CreateSurface(LayerRole::Capture),
            Request::CreateSurface(LayerRole::Update),
        ],
{
    let mut requests: Vec<Request> = Vec::new();
    requests.push(Request::CreateSurface(LayerRole::Capture));
    requests.push(Request::CreateSurface(LayerRole::Update));
    state.capture.surface = true;
    state.update.surface = true;
    requests
}

/// Makes the capture layer, after the buffer: it covers the whole screen and
/// takes room from nobody. `layer_surface` is the number under which its
/// configurations will come.
pub fn setup_capture_layer(state: &mut State, layer_surface: u64) -> (requests: Vec<Request>)
    requires
        old(state).interfaces.layer_shell,
        old(state).capture.surface,
    ensures
        *final(state) == (State {
            capture: Layer { layer_surface: Some(layer_surface), ..old(state).capture },
            ..*old(state)
        }),
        requests@ == seq![
            Request::CreateLayerSurface(LayerRole::Capture),
            Request::SetExclusiveZone { role: LayerRole::Capture, zone: IGNORE_ZONES },
            Request::AnchorToAllEdges(LayerRole::Capture),
            Request::Commit(LayerRole::Capture),
        ],
        requests@[1] == (Request::SetExclusiveZone { role: LayerRole::Capture, zone: -1i32 }),
{
    let mut requests: Vec<Request> = Vec::new();
    requests.push(Request::CreateLayerSurface(LayerRole::Capture));
    requests.push(Request::SetExclusiveZone { role: LayerRole::Capture, zone: IGNORE_ZONES });
    requests.push(Request::AnchorToAllEdges(LayerRole::Capture));
    requests.push(Request::Commit(LayerRole::Capture));
    state.capture.layer_surface = Some(layer_surface);
    requests
}

/// How far the start has come after so many answers of the compositor.
pub open spec fn started(start: State, answers: Seq<bool>) -> (State, BindStep)
    decreases answers.len(),
{
    if answers.len() == 0 {
        (start, BindStep::Bind(Global::Compositor))
    } else {
        let (state, step) = started(start, answers.drop_last());
        match step {
            BindStep::Bind(global) => (
                State {
                    interfaces: with_global(state.interfaces, global, answers.last()),
                    ..state
                },
                bind_step(global, answers.last()),
            ),
            _ => (state, step),
        }
    }
}

/// Whether all is there that the start has asked for before an interface and
/// cannot do without.
spec fn has_before(state: State, global: Global) -> bool {
    &&& global != Global::Compositor ==> state.interfaces.compositor
    &&& global != Global::Compositor && global != Global::LayerShell ==> state.interfaces.layer_shell
    &&& global == Global::Viewporter || global == Global::SinglePixelBufferManager || global
        == Global::Shm ==> state.interfaces.seat
}

/// A start that has succeeded can go on: the surfaces, the buffer and the capture
/// layer can all be made. One that has failed has a message to exit with.
pub proof fn law_started_state_suffices(start: State, answers: Seq<bool>)
    ensures
        started(start, answers).1 is Ready ==> {
            let state = started(start, answers).0;
            state.interfaces.compositor && state.interfaces.layer_shell && state.interfaces.seat && buffer_plan(state) is Some
        },
        started(start, answers).1 matches BindStep::Exit(global) ==> missing_text(global) is Some,
{
    lemma_started(start, answers);
}

proof fn lemma_started(start: State, answers: Seq<bool>)
    ensures
        ({
            let (state, step) = started(start, answers);
            match step {
                BindStep::Bind(global) => has_before(state, global),
                BindStep::Ready => state.interfaces.compositor && state.interfaces.layer_shell && state.interfaces.seat
                    && buffer_plan(state) is Some,
                BindStep::Exit(global) => missing_text(global) is Some,
            }
        }),
    decreases answers.len(),
{
    if answers.len() > 0 {
        lemma_started(start, answers.drop_last());
    }
}

/// The start is over after at most six answers.
pub proof fn law_start_ends(start: State, answers: Seq<bool>)
    requires
        answers.len() >= 6,
    ensures
        !(started(start, answers).1 is Bind),
{
    lemma_start_progress(start, answers);
}

spec fn asked(global: Global) -> int {
    match global {
        Global::Compositor => 0,
        Global::LayerShell => 1,
        Global::Seat => 2,
        Global::Viewporter => 3,
        Global::SinglePixelBufferManager => 4,
        Global::Shm => 5,
    }
}

proof fn lemma_start_progress(start: State, answers: Seq<bool>)
    ensures
        started(start, answers).1 matches BindStep::Bind(global) ==> asked(global)
            == answers.len(),
    decreases answers.len(),
{
    if answers.len() > 0 {
        lemma_start_progress(start, answers.drop_last());
    }
}

/// The start succeeds exactly where the compositor has surfaces, layers, an input
/// seat, and one of the two ways to make a buffer; without stretched surfaces it
/// does as well. Otherwise it ends at the first interface that is missing. What was
/// found is noted, and nothing else.
pub proof fn law_start_takes_what_is_needed(start: State, viewporter: bool, shm: bool)
    ensures
        started(start, seq![false]) == (start, BindStep::Exit(Global::Compositor)),
        started(start, seq![true, false]).1 == BindStep::Exit(Global::LayerShell),
        started(start, seq![true, true, false]).1 == BindStep::Exit(Global::Seat),
        started(start, seq![true, true, true, viewporter, true]).1 is Ready,
        started(start, seq![true, true, true, viewporter, false, shm]).1 is Ready <==> shm,
        started(start, seq![true, true, true, viewporter, false, false]).1 == BindStep::Exit(
            Global::Shm,
        ),
        started(start, seq![true, true, true, viewporter, true]).0 == (State {
            interfaces: Interfaces {
                compositor: true,
                layer_shell: true,
                seat: true,
                viewporter: start.interfaces.viewporter || viewporter,
                single_pixel_buffer_manager: true,
                shm: start.interfaces.shm,
            },
            ..start
        }),
        started(start, seq![true, true, true, viewporter, false, true]).0 == (State {
            interfaces: Interfaces {
                compositor: true,
                layer_shell: true,
                seat: true,
                viewporter: start.interfaces.viewporter || viewporter,
                single_pixel_buffer_manager: start.interfaces.single_pixel_buffer_manager,
                shm: true,
            },
            ..start
        }),
{
    reveal_with_fuel(started, 7);
    let a1 = seq![true];
    let a2 = seq![true, true];
    let a3 = seq![true, true, true];
    let a4 = seq![true, true, true, viewporter];
    let a5 = seq![true, true, true, viewporter, false];
    assert(seq![false].drop_last() =~= seq![]);
    assert(a1.drop_last() =~= seq![]);
    assert(a2.drop_last() =~= a1);
    assert(seq![true, false].drop_last() =~= a1);
    assert(a3.drop_last() =~= a2);
    assert(seq![true, true, false].drop_last() =~= a2);
    assert(a4.drop_last() =~= a3);
    assert(a5.drop_last() =~= a4);
    assert(seq![true, true, true, viewporter, true].drop_last() =~= a4);
    assert(seq![true, true, true, viewporter, false, shm].drop_last() =~= a5);
    assert(seq![true, true, true, viewporter, false, true].drop_last() =~= a5);
    assert(seq![true, true, true, viewporter, false, false].drop_last() =~= a5);
}

/// The buffer is one pixel of four bytes. It is made without shared memory wherever
/// that is possible, and can be made wherever there is either way.
pub proof fn law_buffer_is_one_pixel(state: State)
    ensures
        buffer_plan(state) is Some <==> state.interfaces.single_pixel_buffer_manager
            || state.interfaces.shm,
        buffer_plan(state) == Some(BufferPlan::SinglePixel)
            <==> state.interfaces.single_pixel_buffer_manager,
        buffer_plan(state) matches Some(BufferPlan::SharedMemory { size, width, height, stride })
            ==> width == 1 && height == 1 && stride == 4 * width && size == stride * height,
{
}

/// Exactly the two interfaces that can be done without have no message. Surfaces and
/// layers are wanted from their fourth version on, and of surfaces the next one will
/// do as well; everything else is wanted in its first.
pub proof fn law_needed_interfaces_have_a_message(global: Global)
    ensures
        missing_text(global) is None <==> global == Global::Viewporter || global
            == Global::SinglePixelBufferManager,
        versions(global).0 <= versions(global).1,
        global == Global::Compositor || global == Global::LayerShell <==> versions(global).0 == 4,
        global != Global::Compositor && global != Global::LayerShell <==> versions(global).0 == 1,
        versions(global).0 < versions(global).1 <==> global == Global::Compositor,
        versions(global).1 <= versions(global).0 + 1,
        bind_step(global, false) is Exit <==> missing_text(global) is Some,
{
}

} // verus!
