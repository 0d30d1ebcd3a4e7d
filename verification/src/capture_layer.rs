//! The capture layer: the invisible surfaces that learn where the pointer is,
//! from their setup to their removal.

use vstd::prelude::*;

verus! {

/// The two surfaces.
#[derive(Clone, Copy, Debug, PartialEq, Eq, Structural)]
pub enum LayerRole {
    Capture,
    Update,
}

/// Something that can be destroyed.
#[derive(Clone, Copy, Debug, PartialEq, Eq, Structural)]
pub enum LayerObject {
    Viewport(LayerRole),
    LayerSurface(LayerRole),
    Surface(LayerRole),
    TransparentBuffer,
    ShmPool,
    ShmFile,
}

/// A request to the compositor.
#[derive(Clone, Copy, Debug, PartialEq, Eq, Structural)]
pub enum Request {
    /// Confirm the configuration with this serial.
    AckConfigure(u32),
    /// Attach the transparent buffer to a surface.
    Attach(LayerRole),
    /// Make a viewport for a surface.
    CreateViewport(LayerRole),
    /// Stretch a surface to a size.
    SetDestination { role: LayerRole, width: i32, height: i32 },
    /// Say that a surface has changed from its corner to a size.
    Damage { role: LayerRole, width: i32, height: i32 },
    /// Ask to be told when a surface is drawn.
    RequestFrame(LayerRole),
    /// Make the changes of a surface take effect.
    Commit(LayerRole),
    /// Make a surface.
    CreateSurface(LayerRole),
    /// Make a layer surface of a surface, above everything else.
    CreateLayerSurface(LayerRole),
    /// Say how much room a layer surface takes from others.
    SetExclusiveZone { role: LayerRole, zone: i32 },
    /// Fasten a layer surface to all four edges of the screen.
    AnchorToAllEdges(LayerRole),
    /// Destroy an object. A file is closed.
    Destroy(LayerObject),
}

/// The interfaces that the compositor offers.
#[derive(Clone, Copy, Debug, PartialEq, Eq, Structural)]
pub struct Interfaces {
    pub compositor: bool,
    pub layer_shell: bool,
    pub seat: bool,
    pub viewporter: bool,
    pub single_pixel_buffer_manager: bool,
    pub shm: bool,
}

/// What was made of one surface. A layer surface is known by its number.
#[derive(Clone, Copy, Debug, PartialEq, Eq, Structural)]
pub struct Layer {
    pub surface: bool,
    pub layer_surface: Option<u64>,
    pub viewport: bool,
    pub frame_callback: bool,
}

/// The transparent buffer and what backs it.
#[derive(Clone, Copy, Debug, PartialEq, Eq, Structural)]
pub struct Backing {
    pub transparent_buffer: bool,
    pub shm_pool: bool,
    pub shm_file: bool,
}

/// What the capture layer holds, and what it knows.
#[derive(Clone, Copy, Debug, PartialEq, Eq, Structural)]
pub struct State {
    pub interfaces: Interfaces,
    pub capture: Layer,
    pub update: Layer,
    pub backing: Backing,
    pub capture_layer_ready: bool,
    pub capture_layer_clicked: bool,
    pub monitor_width: i32,
    pub monitor_height: i32,
}

/// No interface.
pub open spec fn no_interfaces() -> Interfaces {
    Interfaces {
        compositor: false,
        layer_shell: false,
        seat: false,
        viewporter: false,
        single_pixel_buffer_manager: false,
        shm: false,
    }
}

/// A surface of which nothing has been made.
pub open spec fn no_layer() -> Layer {
    Layer { surface: false, layer_surface: None, viewport: false, frame_callback: false }
}

/// No buffer.
pub open spec fn no_backing() -> Backing {
    Backing { transparent_buffer: false, shm_pool: false, shm_file: false }
}

/// A length as the compositor sends it, read as a signed number.
pub open spec fn signed(length: u32) -> int {
    if length < 0x8000_0000 {
        length as int
    } else {
        length - 0x1_0000_0000
    }
}

fn to_signed(length: u32) -> (n: i32)
    ensures
        n == signed(length),
{
    if length < 0x8000_0000 {
        length as i32
    } else {
        (length as i64 - 0x1_0000_0000) as i32
    }
}

/// Some requests, followed by one more under a condition.
#[verifier::opaque]
pub open spec fn with_if(requests: Seq<Request>, condition: bool, request: Request) -> Seq<Request> {
    if condition {
        requests.push(request)
    } else {
        requests
    }
}

fn push_if(requests: &mut Vec<Request>, condition: bool, request: Request)
    ensures
        final(requests)@ == with_if(old(requests)@, condition, request),
{
    reveal(with_if);
    if condition {
        requests.push(request);
    }
}

impl State {
    /// A state in which nothing has been made and nothing is known.
    pub fn new() -> (state: Self)
        ensures
            state == (State {
                interfaces: no_interfaces(),
                capture: no_layer(),
                update: no_layer(),
                backing: no_backing(),
                capture_layer_ready: false,
                capture_layer_clicked: false,
                monitor_width: 0,
                monitor_height: 0,
            }),
    {
        let layer = Layer {
            surface: false,
            layer_surface: None,
            viewport: false,
            frame_callback: false,
        };
        State {
            interfaces: Interfaces {
                compositor: false,
                layer_shell: false,
                seat: false,
                viewporter: false,
                single_pixel_buffer_manager: false,
                shm: false,
            },
            capture: layer,
            update: layer,
            backing: Backing { transparent_buffer: false, shm_pool: false, shm_file: false },
            capture_layer_ready: false,
            capture_layer_clicked: false,
            monitor_width: 0,
            monitor_height: 0,
        }
    }

    /// The state with the screen's size taken over from a configuration, unless
    /// the configuration leaves the size open.
    pub open spec fn with_size(self, width: u32, height: u32) -> Self {
        if width > 0 && height > 0 {
            State {
                monitor_width: signed(width) as i32,
                monitor_height: signed(height) as i32,
                ..self
            }
        } else {
            self
        }
    }

    /// Whether a surface has a viewport.
    pub open spec fn has_viewport(self, role: LayerRole) -> bool {
        match role {
            LayerRole::Capture => self.capture.viewport,
            LayerRole::Update => self.update.viewport,
        }
    }

    /// Whether a configuration makes the layer ask for a frame: the capture layer
    /// asks once, the update layer each time.
    pub open spec fn wants_frame(self, role: LayerRole) -> bool {
        match role {
            LayerRole::Capture => !self.capture_layer_ready,
            LayerRole::Update => true,
        }
    }

    /// Some requests, followed by those that show a surface at a size: the buffer
    /// is attached, stretched if that is possible, and committed.
    pub open spec fn with_shown(
        self,
        requests: Seq<Request>,
        role: LayerRole,
        width: u32,
        height: u32,
    ) -> Seq<Request> {
        let width = signed(width) as i32;
        let height = signed(height) as i32;
        let attached = with_if(requests, self.backing.transparent_buffer, Request::Attach(role));
        let with_viewport = with_if(
            attached,
            !self.has_viewport(role) && self.interfaces.viewporter,
            Request::CreateViewport(role),
        );
        let stretched = with_if(
            with_viewport,
            self.has_viewport(role) || self.interfaces.viewporter,
            Request::SetDestination { role, width, height },
        );
        let damaged = stretched.push(Request::Damage { role, width, height });
        with_if(damaged, self.wants_frame(role), Request::RequestFrame(role)).push(
            Request::Commit(role),
        )
    }

    /// The state after a surface was shown.
    pub open spec fn shown(self, role: LayerRole) -> Self {
        match role {
            LayerRole::Capture => State {
                capture: Layer {
                    viewport: self.capture.viewport || self.interfaces.viewporter,
                    frame_callback: self.capture.frame_callback || !self.capture_layer_ready,
                    ..self.capture
                },
                capture_layer_ready: true,
                ..self
            },
            LayerRole::Update => State {
                update: Layer {
                    viewport: self.update.viewport || self.interfaces.viewporter,
                    frame_callback: true,
                    ..self.update
                },
                ..self
            },
        }
    }

    /// Whether the configured layer surface is the capture layer's.
    pub open spec fn is_capture(self, surface: u64) -> bool {
        self.capture.layer_surface == Some(surface)
    }

    /// Whether the configured layer surface is the update layer's.
    pub open spec fn is_update(self, surface: u64) -> bool {
        self.update.layer_surface == Some(surface)
    }

    /// The requests that answer a configuration.
    pub open spec fn configure_requests(
        self,
        surface: u64,
        serial: u32,
        width: u32,
        height: u32,
    ) -> Seq<Request> {
        let ack = seq![Request::AckConfigure(serial)];
        if self.is_capture(surface) && !self.capture.surface {
            ack
        } else {
            let first = if self.is_capture(surface) {
                self.with_shown(ack, LayerRole::Capture, width, height)
            } else {
                ack
            };
            if self.is_update(surface) && self.update.surface {
                self.with_shown(first, LayerRole::Update, width, height)
            } else {
                first
            }
        }
    }

    /// The state after a configuration.
    pub open spec fn after_configure(self, surface: u64, width: u32, height: u32) -> Self {
        let sized = self.with_size(width, height);
        if sized.is_capture(surface) && !sized.capture.surface {
            sized
        } else {
            let first = if sized.is_capture(surface) {
                sized.shown(LayerRole::Capture)
            } else {
                sized
            };
            if first.is_update(surface) && first.update.surface {
                first.shown(LayerRole::Update)
            } else {
                first
            }
        }
    }

    fn request_show(&self, role: LayerRole, width: u32, height: u32, requests: &mut Vec<Request>)
        ensures
            final(requests)@ == self.with_shown(old(requests)@, role, width, height),
    {
        let width: i32 = to_signed(width);
        let height: i32 = to_signed(height);
        let has_viewport = match role {
            LayerRole::Capture => self.capture.viewport,
            LayerRole::Update => self.update.viewport,
        };
        let wants_frame = match role {
            LayerRole::Capture => !self.capture_layer_ready,
            LayerRole::Update => true,
        };
        push_if(requests, self.backing.transparent_buffer, Request::Attach(role));
        push_if(requests, !has_viewport && self.interfaces.viewporter, Request::CreateViewport(role));
        push_if(
            requests,
            has_viewport || self.interfaces.viewporter,
            Request::SetDestination { role, width, height },
        );
        requests.push(Request::Damage { role, width, height });
        push_if(requests, wants_frame, Request::RequestFrame(role));
        requests.push(Request::Commit(role));
    }

    fn note_shown(&mut self, role: LayerRole)
        ensures
            *final(self) == old(self).shown(role),
    {
        match role {
            LayerRole::Capture => {
                self.capture.viewport = self.capture.viewport || self.interfaces.viewporter;
                if !self.capture_layer_ready {
                    self.capture_layer_ready = true;
                    self.capture.frame_callback = true;
                }
            },
            LayerRole::Update => {
                self.update.viewport = self.update.viewport || self.interfaces.viewporter;
                self.update.frame_callback = true;
            },
        }
    }

    fn answer_configure(&self, surface: u64, serial: u32, width: u32, height: u32) -> (requests: Vec<
        Request,
    >)
        ensures
            requests@ == self.configure_requests(surface, serial, width, height),
    {
        let mut requests: Vec<Request> = Vec::new();
        requests.push(Request::AckConfigure(serial));
        assert(requests@ =~= seq![Request::AckConfigure(serial)]);
        if self.capture.layer_surface == Some(surface) {
            if !self.capture.surface {
                return requests;
            }
            self.request_show(LayerRole::Capture, width, height, &mut requests);
        }
        if self.update.layer_surface == Some(surface) && self.update.surface {
            self.request_show(LayerRole::Update, width, height, &mut requests);
        }
        requests
    }

    fn note_configure(&mut self, surface: u64, width: u32, height: u32)
        ensures
            *final(self) == old(self).after_configure(surface, width, height),
    {
        if width > 0 && height > 0 {
            self.monitor_width = to_signed(width);
            self.monitor_height = to_signed(height);
        }
        assert(*self == old(self).with_size(width, height));
        if self.capture.layer_surface == Some(surface) {
            if !self.capture.surface {
                return;
            }
            self.note_shown(LayerRole::Capture);
        }
        if self.update.layer_surface == Some(surface) && self.update.surface {
            self.note_shown(LayerRole::Update);
        }
    }

    /// A layer surface was configured. The screen's size is taken over, and the
    /// surface is shown at the size.
    pub fn on_configure(&mut self, surface: u64, serial: u32, width: u32, height: u32) -> (requests:
        Vec<Request>)
        ensures
            *final(self) == old(self).after_configure(surface, width, height),
            requests@ == old(self).configure_requests(surface, serial, width, height),
    {
        let requests = self.answer_configure(surface, serial, width, height);
        self.note_configure(surface, width, height);
        requests
    }

    /// The state without the update layer.
    pub open spec fn without_update_layer(self) -> Self {
        State { update: no_layer(), ..self }
    }

    /// The state without either layer. A frame that the capture layer asked for
    /// stays asked for.
    pub open spec fn without_layers(self) -> Self {
        State {
            capture: Layer { frame_callback: self.capture.frame_callback, ..no_layer() },
            update: no_layer(),
            backing: no_backing(),
            capture_layer_clicked: false,
            ..self
        }
    }

    /// Whether an object exists.
    pub open spec fn holds(self, object: LayerObject) -> bool {
        match object {
            LayerObject::Viewport(LayerRole::Capture) => self.capture.viewport,
            LayerObject::Viewport(LayerRole::Update) => self.update.viewport,
            LayerObject::LayerSurface(LayerRole::Capture) => self.capture.layer_surface is Some,
            LayerObject::LayerSurface(LayerRole::Update) => self.update.layer_surface is Some,
            LayerObject::Surface(LayerRole::Capture) => self.capture.surface,
            LayerObject::Surface(LayerRole::Update) => self.update.surface,
            LayerObject::TransparentBuffer => self.backing.transparent_buffer,
            LayerObject::ShmPool => self.backing.shm_pool,
            LayerObject::ShmFile => self.backing.shm_file,
        }
    }

    /// The destruction of those of some objects that exist, in the given order.
    pub open spec fn destructions(self, objects: Seq<LayerObject>) -> Seq<Request>
        decreases objects.len(),
    {
        if objects.len() == 0 {
            seq![]
        } else {
            with_if(
                self.destructions(objects.drop_last()),
                self.holds(objects.last()),
                Request::Destroy(objects.last()),
            )
        }
    }

    /// The requests that remove the update layer.
    pub open spec fn update_cleanup(self) -> Seq<Request> {
        self.destructions(update_order())
    }

    /// The requests that remove both layers.
    pub open spec fn full_cleanup(self) -> Seq<Request> {
        self.destructions(full_order())
    }

    fn has(&self, object: LayerObject) -> (b: bool)
        ensures
            b == self.holds(object),
    {
        match object {
            LayerObject::Viewport(LayerRole::Capture) => self.capture.viewport,
            LayerObject::Viewport(LayerRole::Update) => self.update.viewport,
            LayerObject::LayerSurface(LayerRole::Capture) => self.capture.layer_surface.is_some(),
            LayerObject::LayerSurface(LayerRole::Update) => self.update.layer_surface.is_some(),
            LayerObject::Surface(LayerRole::Capture) => self.capture.surface,
            LayerObject::Surface(LayerRole::Update) => self.update.surface,
            LayerObject::TransparentBuffer => self.backing.transparent_buffer,
            LayerObject::ShmPool => self.backing.shm_pool,
            LayerObject::ShmFile => self.backing.shm_file,
        }
    }

    fn destroy_held(&self, objects: &Vec<LayerObject>) -> (requests: Vec<Request>)
        ensures
            requests@ == self.destructions(objects@),
    {
        let mut requests: Vec<Request> = Vec::new();
        let mut i: usize = 0;
        while i < objects.len()
            invariant
                i <= objects@.len(),
                requests@ == self.destructions(objects@.take(i as int)),
            decreases objects@.len() - i,
        {
            push_if(&mut requests, self.has(objects[i]), Request::Destroy(objects[i]));
            assert(objects@.take(i + 1).drop_last() =~= objects@.take(i as int));
            i = i + 1;
        }
        assert(objects@.take(i as int) =~= objects@);
        requests
    }
}

/// The objects of the update layer, in the order in which they are destroyed.
pub open spec fn update_order() -> Seq<LayerObject> {
    seq![
        LayerObject::Viewport(LayerRole::Update),
        LayerObject::LayerSurface(LayerRole::Update),
        LayerObject::Surface(LayerRole::Update),
    ]
}

/// All objects, in the order in which they are destroyed.
pub open spec fn full_order() -> Seq<LayerObject> {
    seq![
        LayerObject::Viewport(LayerRole::Capture),
        LayerObject::Viewport(LayerRole::Update),
        LayerObject::LayerSurface(LayerRole::Update),
        LayerObject::Surface(LayerRole::Update),
        LayerObject::LayerSurface(LayerRole::Capture),
        LayerObject::Surface(LayerRole::Capture),
        LayerObject::TransparentBuffer,
        LayerObject::ShmPool,
        LayerObject::ShmFile,
    ]
}

/// Removes both layers and everything that belongs to them.
pub fn cleanup_capture_layer(state: &mut State) -> (requests: Vec<Request>)
    ensures
        *final(state) == old(state).without_layers(),
        requests@ == old(state).full_cleanup(),
{
    let mut order: Vec<LayerObject> = Vec::new();
    order.push(LayerObject::Viewport(LayerRole::Capture));
    order.push(LayerObject::Viewport(LayerRole::Update));
    order.push(LayerObject::LayerSurface(LayerRole::Update));
    order.push(LayerObject::Surface(LayerRole::Update));
    order.push(LayerObject::LayerSurface(LayerRole::Capture));
    order.push(LayerObject::Surface(LayerRole::Capture));
    order.push(LayerObject::TransparentBuffer);
    order.push(LayerObject::ShmPool);
    order.push(LayerObject::ShmFile);
    assert(order@ =~= full_order());
    let requests = state.destroy_held(&order);
    state.capture.viewport = false;
    state.capture.layer_surface = None;
    state.capture.surface = false;
    state.update = Layer {
        surface: false,
        layer_surface: None,
        viewport: false,
        frame_callback: false,
    };
    state.backing = Backing { transparent_buffer: false, shm_pool: false, shm_file: false };
    state.capture_layer_clicked = false;
    requests
}

/// Removes the update layer alone.
pub fn cleanup_update_layer(state: &mut State) -> (requests: Vec<Request>)
    ensures
        *final(state) == old(state).without_update_layer(),
        requests@ == old(state).update_cleanup(),
{
    let mut order: Vec<LayerObject> = Vec::new();
    order.push(LayerObject::Viewport(LayerRole::Update));
    order.push(LayerObject::LayerSurface(LayerRole::Update));
    order.push(LayerObject::Surface(LayerRole::Update));
    assert(order@ =~= update_order());
    let requests = state.destroy_held(&order);
    state.update = Layer {
        surface: false,
        layer_surface: None,
        viewport: false,
        frame_callback: false,
    };
    requests
}

/// A run of destructions destroys an object if it is one of those named and
/// exists.
proof fn lemma_destroyed(state: State, objects: Seq<LayerObject>, object: LayerObject)
    ensures
        state.destructions(objects).contains(Request::Destroy(object)) <==> objects.contains(object)
            && state.holds(object),
    decreases objects.len(),
{
    reveal(with_if);
    let wanted = Request::Destroy(object);
    let after = state.destructions(objects);
    if objects.len() > 0 {
        let shorter = objects.drop_last();
        let last = objects.last();
        let before = state.destructions(shorter);
        lemma_destroyed(state, shorter, object);
        if shorter.contains(object) {
            assert(objects[shorter.index_of(object)] == object);
        }
        if objects.contains(object) && object != last {
            assert(shorter[objects.index_of(object)] == object);
        }
        if before.contains(wanted) {
            assert(after[before.index_of(wanted)] == wanted);
        }
        if object == last {
            assert(objects[objects.len() - 1] == object);
            if state.holds(last) {
                assert(after[before.len() as int] == wanted);
            }
        } else if after.contains(wanted) {
            assert(before[after.index_of(wanted)] == wanted);
        }
    } else {
        assert(after.len() == 0);
    }
}

/// A run of destructions destroys nothing twice, if nothing is named twice.
proof fn lemma_destroyed_once(state: State, objects: Seq<LayerObject>)
    requires
        objects.no_duplicates(),
    ensures
        state.destructions(objects).no_duplicates(),
    decreases objects.len(),
{
    reveal(with_if);
    if objects.len() > 0 {
        let shorter = objects.drop_last();
        let last = objects.last();
        let before = state.destructions(shorter);
        lemma_destroyed_once(state, shorter);
        lemma_destroyed(state, shorter, last);
        if shorter.contains(last) {
            assert(objects[shorter.index_of(last)] == objects[objects.len() - 1]);
        }
        assert(!before.contains(Request::Destroy(last)));
    }
}

/// A run of destructions keeps the order of its objects.
proof fn lemma_destruction_order(
    state: State,
    objects: Seq<LayerObject>,
    p: int,
    q: int,
    i: int,
    j: int,
)
    requires
        objects.no_duplicates(),
        0 <= p < q < objects.len(),
        0 <= i < state.destructions(objects).len(),
        0 <= j < state.destructions(objects).len(),
        state.destructions(objects)[i] == Request::Destroy(objects[p]),
        state.destructions(objects)[j] == Request::Destroy(objects[q]),
    ensures
        i < j,
    decreases objects.len(),
{
    reveal(with_if);
    let shorter = objects.drop_last();
    let before = state.destructions(shorter);
    lemma_destroyed(state, shorter, objects[q]);
    assert(shorter[p] == objects[p]);
    if q == objects.len() - 1 {
        if shorter.contains(objects[q]) {
            assert(objects[shorter.index_of(objects[q])] == objects[q]);
        }
        if j < before.len() {
            assert(before[j] == Request::Destroy(objects[q]));
            assert(before.contains(Request::Destroy(objects[q])));
        }
    } else {
        assert(shorter[q] == objects[q]);
        lemma_destruction_order(state, shorter, p, q, i, j);
    }
}

/// A cleanup leaves nothing behind, so that a second one has nothing to destroy.
pub proof fn law_cleanup_is_complete(state: State)
    ensures
        forall|object: LayerObject| !#[trigger] state.without_layers().holds(object),
        state.without_layers().full_cleanup() == Seq::<Request>::empty(),
        state.without_layers().without_layers() == state.without_layers(),
        state.without_update_layer().update_cleanup() == Seq::<Request>::empty(),
        state.without_update_layer().without_update_layer() == state.without_update_layer(),
{
    let clean = state.without_layers();
    let partly = state.without_update_layer();
    lemma_nothing_held(clean, full_order());
    assert forall|i: int| 0 <= i < update_order().len() implies !partly.holds(
        #[trigger] update_order()[i],
    ) by {
    }
    lemma_nothing_held(partly, update_order());
}

proof fn lemma_nothing_held(state: State, objects: Seq<LayerObject>)
    requires
        forall|i: int| 0 <= i < objects.len() ==> !state.holds(#[trigger] objects[i]),
    ensures
        state.destructions(objects) == Seq::<Request>::empty(),
    decreases objects.len(),
{
    reveal(with_if);
    if objects.len() > 0 {
        assert forall|i: int| 0 <= i < objects.drop_last().len() implies !state.holds(
            #[trigger] objects.drop_last()[i],
        ) by {
            assert(objects.drop_last()[i] == objects[i]);
        }
        assert(!state.holds(objects[objects.len() - 1]));
        lemma_nothing_held(state, objects.drop_last());
    }
}

proof fn lemma_full_order(object: LayerObject)
    ensures
        full_order().contains(object),
        full_order().no_duplicates(),
{
    let order = full_order();
    assert(order[0] == LayerObject::Viewport(LayerRole::Capture));
    assert(order[1] == LayerObject::Viewport(LayerRole::Update));
    assert(order[2] == LayerObject::LayerSurface(LayerRole::Update));
    assert(order[3] == LayerObject::Surface(LayerRole::Update));
    assert(order[4] == LayerObject::LayerSurface(LayerRole::Capture));
    assert(order[5] == LayerObject::Surface(LayerRole::Capture));
    assert(order[6] == LayerObject::TransparentBuffer);
    assert(order[7] == LayerObject::ShmPool);
    assert(order[8] == LayerObject::ShmFile);
}

/// A cleanup destroys exactly the objects that exist, each of them once.
pub proof fn law_cleanup_destroys_each_object_once(state: State, object: LayerObject)
    ensures
        state.full_cleanup().contains(Request::Destroy(object)) <==> state.holds(object),
        state.full_cleanup().no_duplicates(),
{
    lemma_full_order(object);
    lemma_destroyed(state, full_order(), object);
    lemma_destroyed_once(state, full_order());
}

/// A cleanup destroys what depends on something before the thing itself: a
/// viewport and a layer surface go before their surface, the buffer goes before
/// its pool, and the pool before its file.
pub proof fn law_cleanup_destroys_dependents_first(state: State, i: int, j: int, role: LayerRole)
    requires
        0 <= i < state.full_cleanup().len(),
        0 <= j < state.full_cleanup().len(),
        ({
            let first = state.full_cleanup()[i];
            let second = state.full_cleanup()[j];
            ||| first == Request::Destroy(LayerObject::Viewport(role)) && second
                == Request::Destroy(LayerObject::Surface(role))
            ||| first == Request::Destroy(LayerObject::LayerSurface(role)) && second
                == Request::Destroy(LayerObject::Surface(role))
            ||| first == Request::Destroy(LayerObject::TransparentBuffer) && second
                == Request::Destroy(LayerObject::ShmPool)
            ||| first == Request::Destroy(LayerObject::ShmPool) && second == Request::Destroy(
                LayerObject::ShmFile,
            )
        }),
    ensures
        i < j,
{
    lemma_full_order(LayerObject::ShmPool);
    let order = full_order();
    let first = state.full_cleanup()[i]->Destroy_0;
    let second = state.full_cleanup()[j]->Destroy_0;
    let p: int = match first {
        LayerObject::Viewport(LayerRole::Capture) => 0,
        LayerObject::Viewport(LayerRole::Update) => 1,
        LayerObject::LayerSurface(LayerRole::Update) => 2,
        LayerObject::LayerSurface(LayerRole::Capture) => 4,
        LayerObject::TransparentBuffer => 6,
        _ => 7,
    };
    let q: int = match second {
        LayerObject::Surface(LayerRole::Update) => 3,
        LayerObject::Surface(LayerRole::Capture) => 5,
        LayerObject::ShmPool => 7,
        _ => 8,
    };
    assert(order[p] == first);
    assert(order[q] == second);
    lemma_destruction_order(state, order, p, q, i, j);
}

/// To remove the update layer first and the rest later destroys the same objects
/// as to remove everything at once, none of them twice, and leaves the same
/// state.
pub proof fn law_update_cleanup_is_part_of_cleanup(state: State, object: LayerObject)
    ensures
        state.without_update_layer().without_layers() == state.without_layers(),
        state.update_cleanup().contains(Request::Destroy(object)) || state.without_update_layer(
        ).full_cleanup().contains(Request::Destroy(object)) <==> state.full_cleanup().contains(
            Request::Destroy(object),
        ),
        state.update_cleanup().contains(Request::Destroy(object))
            ==> !state.without_update_layer().full_cleanup().contains(Request::Destroy(object)),
{
    let rest = state.without_update_layer();
    law_cleanup_destroys_each_object_once(state, object);
    law_cleanup_destroys_each_object_once(rest, object);
    lemma_destroyed(state, update_order(), object);
    let order = update_order();
    assert(order[0] == LayerObject::Viewport(LayerRole::Update));
    assert(order[1] == LayerObject::LayerSurface(LayerRole::Update));
    assert(order[2] == LayerObject::Surface(LayerRole::Update));
    assert(state.update_cleanup().contains(Request::Destroy(object)) <==> order.contains(object)
        && state.holds(object));
}

/// The capture layer asks for a frame only once, however often it is configured.
pub proof fn law_capture_layer_asks_for_one_frame(
    state: State,
    surface: u64,
    serial: u32,
    width: u32,
    height: u32,
)
    requires
        state.capture_layer_ready,
    ensures
        !state.configure_requests(surface, serial, width, height).contains(
            Request::RequestFrame(LayerRole::Capture),
        ),
        state.after_configure(surface, width, height).capture_layer_ready,
{
    reveal(with_if);
    let requests = state.configure_requests(surface, serial, width, height);
    assert forall|at: int| 0 <= at < requests.len() implies requests[at] != Request::RequestFrame(
        LayerRole::Capture,
    ) by {
    }
}

/// A length that fits is read as it is.
proof fn lemma_signed(length: u32)
    ensures
        length <= 0x7fff_ffff ==> signed(length) == length,
{
}

/// Every configuration is confirmed first, by its own serial, and only once. One of
/// a layer surface that is not known is confirmed and no more.
pub proof fn law_configuration_is_confirmed_first(
    state: State,
    surface: u64,
    serial: u32,
    width: u32,
    height: u32,
    i: int,
)
    requires
        0 <= i < state.configure_requests(surface, serial, width, height).len(),
    ensures
        state.configure_requests(surface, serial, width, height)[0] == Request::AckConfigure(serial),
        state.configure_requests(surface, serial, width, height)[i] is AckConfigure <==> i == 0,
        state.capture.layer_surface != Some(surface) && state.update.layer_surface != Some(surface)
            ==> state.configure_requests(surface, serial, width, height).len() == 1,
{
    reveal(with_if);
}

/// A layer that is configured is shown at the size that it was given: it is
/// committed at the end, damaged over its whole size, given the buffer if there is
/// one, and stretched if that is possible, with a viewport that is made if it is not
/// there yet.
pub proof fn law_configured_layer_is_shown(
    state: State,
    role: LayerRole,
    surface: u64,
    serial: u32,
    width: u32,
    height: u32,
)
    requires
        width <= 0x7fff_ffff,
        height <= 0x7fff_ffff,
        match role {
            LayerRole::Capture => state.capture.layer_surface == Some(surface)
                && state.capture.surface && state.update.layer_surface != Some(surface),
            LayerRole::Update => state.update.layer_surface == Some(surface)
                && state.update.surface && state.capture.layer_surface != Some(surface),
        },
    ensures
        ({
            let requests = state.configure_requests(surface, serial, width, height);
            let (w, h) = (width as i32, height as i32);
            let viewport = match role {
                LayerRole::Capture => state.capture.viewport,
                LayerRole::Update => state.update.viewport,
            };
            let first = role == LayerRole::Update || !state.capture_layer_ready;
            &&& requests.last() == Request::Commit(role)
            &&& requests.contains(Request::Damage { role, width: w, height: h })
            &&& requests.contains(Request::Attach(role)) == state.backing.transparent_buffer
            &&& requests.contains(Request::SetDestination { role, width: w, height: h }) == (
            viewport || state.interfaces.viewporter)
            &&& requests.contains(Request::CreateViewport(role)) == (!viewport
                && state.interfaces.viewporter)
            &&& requests.contains(Request::RequestFrame(role)) == first
            &&& requests.no_duplicates()
        }),
{
    reveal(with_if);
    lemma_signed(width);
    lemma_signed(height);
    let requests = state.configure_requests(surface, serial, width, height);
    let (w, h) = (width as i32, height as i32);
    let viewport = state.has_viewport(role);
    let attach: int = if state.backing.transparent_buffer {
        1
    } else {
        0
    };
    let create: int = if !viewport && state.interfaces.viewporter {
        1
    } else {
        0
    };
    let stretch: int = if viewport || state.interfaces.viewporter {
        1
    } else {
        0
    };
    if attach == 1 {
        assert(requests[1] == Request::Attach(role));
    }
    if create == 1 {
        assert(requests[1 + attach] == Request::CreateViewport(role));
    }
    if stretch == 1 {
        assert(requests[1 + attach + create] == (Request::SetDestination {
            role,
            width: w,
            height: h,
        }));
    }
    assert(requests[1 + attach + create + stretch] == (Request::Damage {
        role,
        width: w,
        height: h,
    }));
    if state.wants_frame(role) {
        assert(requests[2 + attach + create + stretch] == Request::RequestFrame(role));
    }
}

/// The screen's size is taken over from every configuration that gives one, and kept
/// otherwise. A configuration makes the layer ready that it is for, and takes
/// nothing away.
pub proof fn law_configuration_gives_the_screen_size(
    state: State,
    surface: u64,
    width: u32,
    height: u32,
)
    requires
        width <= 0x7fff_ffff,
        height <= 0x7fff_ffff,
    ensures
        ({
            let after = state.after_configure(surface, width, height);
            &&& width > 0 && height > 0 ==> after.monitor_width == width && after.monitor_height
                == height
            &&& width == 0 || height == 0 ==> after.monitor_width == state.monitor_width
                && after.monitor_height == state.monitor_height
            &&& state.capture.layer_surface == Some(surface) && state.capture.surface
                ==> after.capture_layer_ready && after.capture.viewport == (state.capture.viewport
                || state.interfaces.viewporter)
            &&& state.capture.layer_surface == Some(surface) && state.capture.surface
                ==> after.capture.frame_callback == (state.capture.frame_callback
                || !state.capture_layer_ready)
            &&& state.update.layer_surface == Some(surface) && state.update.surface
                && state.capture.layer_surface != Some(surface) ==> after.update.frame_callback
                && after.update.viewport == (state.update.viewport || state.interfaces.viewporter)
            &&& state.capture.layer_surface != Some(surface) ==> after.capture_layer_ready
                == state.capture_layer_ready && after.capture == state.capture
            &&& state.update.layer_surface != Some(surface) ==> after.update == state.update
            &&& after.interfaces == state.interfaces && after.backing == state.backing
            &&& after.capture_layer_clicked == state.capture_layer_clicked
            &&& after.capture.surface == state.capture.surface && after.capture.layer_surface
                == state.capture.layer_surface
            &&& after.update.surface == state.update.surface && after.update.layer_surface
                == state.update.layer_surface
        }),
{
    lemma_signed(width);
    lemma_signed(height);
}

/// A cleanup destroys each thing exactly if it was made.
pub proof fn law_cleanup_destroys_what_was_made(state: State)
    ensures
        ({
            let requests = state.full_cleanup();
            &&& requests.contains(Request::Destroy(LayerObject::Viewport(LayerRole::Capture)))
                == state.capture.viewport
            &&& requests.contains(Request::Destroy(LayerObject::Viewport(LayerRole::Update)))
                == state.update.viewport
            &&& requests.contains(Request::Destroy(LayerObject::LayerSurface(LayerRole::Capture)))
                == state.capture.layer_surface.is_some()
            &&& requests.contains(Request::Destroy(LayerObject::LayerSurface(LayerRole::Update)))
                == state.update.layer_surface.is_some()
            &&& requests.contains(Request::Destroy(LayerObject::Surface(LayerRole::Capture)))
                == state.capture.surface
            &&& requests.contains(Request::Destroy(LayerObject::Surface(LayerRole::Update)))
                == state.update.surface
            &&& requests.contains(Request::Destroy(LayerObject::TransparentBuffer))
                == state.backing.transparent_buffer
            &&& requests.contains(Request::Destroy(LayerObject::ShmPool)) == state.backing.shm_pool
            &&& requests.contains(Request::Destroy(LayerObject::ShmFile)) == state.backing.shm_file
        }),
        forall|i: int|
            0 <= i < state.full_cleanup().len() ==> (#[trigger] state.full_cleanup()[i]) is Destroy,
{
    law_cleanup_destroys_each_object_once(state, LayerObject::Viewport(LayerRole::Capture));
    law_cleanup_destroys_each_object_once(state, LayerObject::Viewport(LayerRole::Update));
    law_cleanup_destroys_each_object_once(state, LayerObject::LayerSurface(LayerRole::Capture));
    law_cleanup_destroys_each_object_once(state, LayerObject::LayerSurface(LayerRole::Update));
    law_cleanup_destroys_each_object_once(state, LayerObject::Surface(LayerRole::Capture));
    law_cleanup_destroys_each_object_once(state, LayerObject::Surface(LayerRole::Update));
    law_cleanup_destroys_each_object_once(state, LayerObject::TransparentBuffer);
    law_cleanup_destroys_each_object_once(state, LayerObject::ShmPool);
    law_cleanup_destroys_each_object_once(state, LayerObject::ShmFile);
    lemma_only_destructions(state, full_order());
}

proof fn lemma_only_destructions(state: State, objects: Seq<LayerObject>)
    ensures
        forall|i: int|
            0 <= i < state.destructions(objects).len() ==> (#[trigger] state.destructions(
                objects,
            )[i]) is Destroy,
    decreases objects.len(),
{
    reveal(with_if);
    if objects.len() > 0 {
        lemma_only_destructions(state, objects.drop_last());
    }
}

/// The removal of the update layer destroys its viewport, its layer surface and its
/// surface, each if it was made, and nothing of the capture layer; the surface goes
/// last.
pub proof fn law_update_cleanup_destroys_what_was_made(state: State)
    ensures
        ({
            let requests = state.update_cleanup();
            let viewport = Request::Destroy(LayerObject::Viewport(LayerRole::Update));
            let layer = Request::Destroy(LayerObject::LayerSurface(LayerRole::Update));
            let surface = Request::Destroy(LayerObject::Surface(LayerRole::Update));
            &&& requests.contains(viewport) == state.update.viewport
            &&& requests.contains(layer) == state.update.layer_surface.is_some()
            &&& requests.contains(surface) == state.update.surface
            &&& requests.no_duplicates()
            &&& forall|i: int|
                0 <= i < requests.len() ==> (#[trigger] requests[i]) == viewport || requests[i]
                    == layer || requests[i] == surface
            &&& state.update.surface ==> requests.last() == surface
        }),
{
    reveal(with_if);
    reveal_with_fuel(State::destructions, 4);
    let order = update_order();
    assert(order[0] == LayerObject::Viewport(LayerRole::Update));
    assert(order[1] == LayerObject::LayerSurface(LayerRole::Update));
    assert(order[2] == LayerObject::Surface(LayerRole::Update));
    lemma_destroyed(state, order, LayerObject::Viewport(LayerRole::Update));
    lemma_destroyed(state, order, LayerObject::LayerSurface(LayerRole::Update));
    lemma_destroyed(state, order, LayerObject::Surface(LayerRole::Update));
    lemma_destroyed_once(state, order);
    assert(order.drop_last().drop_last() =~= seq![order[0]]);
    assert(order.drop_last() =~= seq![order[0], order[1]]);
}

/// After a cleanup nothing is held and no click is remembered; what the compositor
/// offers and the size of the screen stay known. After the removal of the update
/// layer the rest is as it was.
pub proof fn law_cleanup_keeps_what_is_known(state: State)
    ensures
        ({
            let clean = state.without_layers();
            &&& !clean.capture.surface && !clean.capture.viewport && clean.capture.layer_surface
                is None
            &&& !clean.update.surface && !clean.update.viewport && clean.update.layer_surface
                is None && !clean.update.frame_callback
            &&& !clean.backing.transparent_buffer && !clean.backing.shm_pool
                && !clean.backing.shm_file
            &&& !clean.capture_layer_clicked
            &&& clean.interfaces == state.interfaces
            &&& clean.monitor_width == state.monitor_width && clean.monitor_height
                == state.monitor_height
            &&& clean.capture_layer_ready == state.capture_layer_ready
            &&& clean.capture.frame_callback == state.capture.frame_callback
        }),
        ({
            let rest = state.without_update_layer();
            &&& !rest.update.surface && !rest.update.viewport && rest.update.layer_surface is None
                && !rest.update.frame_callback
            &&& rest == (State { update: rest.update, ..state })
        }),
{
}

} // verus!
