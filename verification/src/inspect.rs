//! The window inspector: it follows the pointer over a transparent overlay,
//! finds the window underneath and marks it with a border.

use std::collections::HashMap;
use vstd::prelude::*;
use vstd::string::*;

use crate::fixed::{Fixed, Geometry};
use crate::paint::paint_border;
use crate::text::append_decimal;
use crate::wire::{contains_u32, decode_u32s, ByteOrder};

verus! {

broadcast use vstd::std_specs::hash::group_hash_axioms;

/// The numbers that stand for the states of a window.
pub const STATE_MAXIMIZED: u32 = 0;

pub const STATE_MINIMIZED: u32 = 1;

pub const STATE_ACTIVATED: u32 = 2;

pub const STATE_FULLSCREEN: u32 = 3;

pub const STATE_STICKY: u32 = 4;

/// How many round trips to the compositor the start takes at most.
pub const START_ROUNDS: u32 = 40;

/// What is known of one window.
pub struct Window {
    pub app_id: Option<String>,
    pub title: Option<String>,
    pub identifier: Option<String>,
    pub states: Vec<u32>,
    /// The rectangle that was reported last.
    pub geometry: Option<Geometry>,
}

/// What is known of one window, as mathematical values.
#[verifier::ext_equal]
pub struct WindowModel {
    pub app_id: Option<Seq<char>>,
    pub title: Option<Seq<char>>,
    pub identifier: Option<Seq<char>>,
    pub states: Seq<u32>,
    pub geometry: Option<Geometry>,
}

impl View for Window {
    type V = WindowModel;

    open spec fn view(&self) -> WindowModel {
        WindowModel {
            app_id: crate::text::opt_text(self.app_id),
            title: crate::text::opt_text(self.title),
            identifier: crate::text::opt_text(self.identifier),
            states: self.states@,
            geometry: self.geometry,
        }
    }
}

/// A window of which nothing is known yet.
pub open spec fn blank_window() -> WindowModel {
    WindowModel { app_id: None, title: None, identifier: None, states: seq![], geometry: None }
}

impl WindowModel {
    /// Whether the point lies in the window, as far as its place is known.
    pub open spec fn covers(self, px: Fixed, py: Fixed) -> bool {
        self.geometry matches Some(geometry) && geometry.covers(px, py)
    }

    /// Whether the window can be the one that is seen at a point: it is there
    /// and is not minimized.
    pub open spec fn is_candidate(self, px: Fixed, py: Fixed) -> bool {
        !self.states.contains(STATE_MINIMIZED) && self.covers(px, py)
    }

    /// The area of the window.
    pub open spec fn size(self) -> int {
        match self.geometry {
            Some(geometry) => geometry.size(),
            None => 0,
        }
    }
}

impl Window {
    /// A window of which nothing is known yet.
    pub fn blank() -> (window: Self)
        ensures
            window@ == blank_window(),
    {
        let window = Window {
            app_id: None,
            title: None,
            identifier: None,
            states: Vec::new(),
            geometry: None,
        };
        assert(window@ =~= blank_window());
        window
    }

    /// Whether the window is in a state.
    pub fn has_state(&self, want: u32) -> (b: bool)
        ensures
            b == self@.states.contains(want),
    {
        contains_u32(&self.states, want)
    }

    /// Whether a point lies in the window. It lies in none whose place is not
    /// known.
    pub fn contains(&self, px: Fixed, py: Fixed) -> (b: bool)
        ensures
            b == self@.covers(px, py),
    {
        match &self.geometry {
            Some(geometry) => geometry.contains(px, py),
            None => false,
        }
    }
}

/// What the list of windows reports of one of them.
pub enum HandleEvent {
    AppId(String),
    Title(String),
    Identifier(String),
    Closed,
    /// Anything else.
    Other,
}

/// What the pointer does.
#[derive(Clone, Copy, Debug, PartialEq, Eq, Structural)]
pub enum PointerEvent {
    /// It came onto the overlay or moved on it.
    At(Fixed, Fixed),
    /// It left the overlay.
    Leave,
    /// Anything else.
    Other,
}

/// What the overlay's buffer needs.
#[derive(Clone, Copy, Debug, PartialEq, Eq, Structural)]
pub enum BufferAction {
    /// The buffer fits already.
    Keep,
    /// There is no shared memory to put one in.
    Unavailable,
    /// A new buffer of so many bytes, with so many in a row.
    Allocate { stride: i32, size: u64 },
}

/// What became of painting the overlay.
#[derive(Clone, Copy, Debug, PartialEq, Eq, Structural)]
pub enum RenderOutcome {
    /// The border is where it was.
    Unchanged,
    /// There is nothing to paint on.
    NoBuffer,
    /// The pixels are painted and have to be shown.
    Painted,
}

/// The state of the inspector.
pub struct AppState {
    /// Whether the extension that reports states and places is there.
    pub info: bool,
    /// The windows by list handle, in the order in which they appeared.
    pub windows: Vec<(u64, Window)>,
    /// The list handles, by extension handle.
    pub cosmic_to_ext: HashMap<u64, u64>,
    /// Whether everything that was there at the start has been reported.
    pub done: bool,
    /// Whether there is shared memory for a buffer.
    pub shm: bool,
    /// Whether the overlay's surface exists.
    pub overlay_surface: bool,
    /// Whether the overlay's buffer exists and is mapped.
    pub buffer: bool,
    /// The size of the buffer in pixels.
    pub screen_w: i32,
    pub screen_h: i32,
    /// The rectangle that is marked.
    pub last_rect: Option<Geometry>,
    /// Whether the next painting has to happen even if nothing moved.
    pub repaint: bool,
    /// Whether the overlay is on the screen.
    pub mapped: bool,
    /// Where the pointer is.
    pub cursor: Option<(Fixed, Fixed)>,
    /// Whether something changed that the report shows.
    pub dirty: bool,
}

/// The state of the inspector, as mathematical values.
#[verifier::ext_equal]
pub struct AppModel {
    pub info: bool,
    pub windows: Seq<(u64, WindowModel)>,
    pub cosmic_to_ext: Map<u64, u64>,
    pub done: bool,
    pub shm: bool,
    pub overlay_surface: bool,
    pub buffer: bool,
    pub screen_w: i32,
    pub screen_h: i32,
    pub last_rect: Option<Geometry>,
    pub repaint: bool,
    pub mapped: bool,
    pub cursor: Option<(Fixed, Fixed)>,
    pub dirty: bool,
}

/// The windows of a list, each with its handle.
pub open spec fn window_models(windows: Seq<(u64, Window)>) -> Seq<(u64, WindowModel)> {
    Seq::new(windows.len(), |i: int| (windows[i].0, windows[i].1@))
}

impl View for AppState {
    type V = AppModel;

    open spec fn view(&self) -> AppModel {
        AppModel {
            info: self.info,
            windows: window_models(self.windows@),
            cosmic_to_ext: self.cosmic_to_ext@,
            done: self.done,
            shm: self.shm,
            overlay_surface: self.overlay_surface,
            buffer: self.buffer,
            screen_w: self.screen_w,
            screen_h: self.screen_h,
            last_rect: self.last_rect,
            repaint: self.repaint,
            mapped: self.mapped,
            cursor: self.cursor,
            dirty: self.dirty,
        }
    }
}

/// The place of a handle in a list of windows; the length of the list if it is
/// not there.
pub open spec fn slot_of(windows: Seq<(u64, WindowModel)>, ext: u64) -> int
    decreases windows.len(),
{
    if windows.len() == 0 || windows[0].0 == ext {
        0
    } else {
        1 + slot_of(windows.drop_first(), ext)
    }
}

/// A list of windows in which a handle surely occurs.
pub open spec fn with_window(windows: Seq<(u64, WindowModel)>, ext: u64) -> Seq<
    (u64, WindowModel),
> {
    if slot_of(windows, ext) < windows.len() {
        windows
    } else {
        windows.push((ext, blank_window()))
    }
}

proof fn lemma_slot(windows: Seq<(u64, WindowModel)>, ext: u64)
    ensures
        0 <= slot_of(windows, ext) <= windows.len(),
        slot_of(windows, ext) < windows.len() ==> windows[slot_of(windows, ext)].0 == ext,
        forall|j: int| 0 <= j < slot_of(windows, ext) ==> (#[trigger] windows[j]).0 != ext,
    decreases windows.len(),
{
    if windows.len() == 0 || windows[0].0 == ext {
    } else {
        let rest = windows.drop_first();
        lemma_slot(rest, ext);
        let slot = slot_of(rest, ext);
        assert forall|j: int| 0 <= j < 1 + slot implies (#[trigger] windows[j]).0 != ext by {
            if j > 0 {
                assert(windows[j] == rest[j - 1]);
            }
        }
    }
}

proof fn lemma_with_window(windows: Seq<(u64, WindowModel)>, ext: u64)
    ensures
        0 <= slot_of(with_window(windows, ext), ext) < with_window(windows, ext).len(),
        slot_of(with_window(windows, ext), ext) == slot_of(windows, ext),
{
    let grown = with_window(windows, ext);
    lemma_slot(windows, ext);
    lemma_slot(grown, ext);
    let slot = slot_of(windows, ext);
    let found = slot_of(grown, ext);
    if slot == windows.len() {
        assert(grown[slot].0 == ext);
        if found < slot {
            assert(grown[found] == windows[found]);
        }
    }
}

impl AppModel {
    /// No two windows have the same handle.
    pub open spec fn well_formed(self) -> bool {
        forall|i: int, j: int|
            0 <= i < j < self.windows.len() ==> (#[trigger] self.windows[i]).0 != (
            #[trigger] self.windows[j]).0
    }

    /// A window appeared; `cosmic` is its handle in the extension.
    pub open spec fn after_toplevel(self, ext: u64, cosmic: u64) -> Self {
        AppModel {
            windows: with_window(self.windows, ext),
            cosmic_to_ext: if self.info {
                self.cosmic_to_ext.insert(cosmic, ext)
            } else {
                self.cosmic_to_ext
            },
            dirty: true,
            ..self
        }
    }

    /// What a report of the list makes of a window.
    pub open spec fn noted(window: WindowModel, event: HandleEvent) -> WindowModel {
        match event {
            HandleEvent::AppId(app_id) => WindowModel { app_id: Some(app_id@), ..window },
            HandleEvent::Title(title) => WindowModel { title: Some(title@), ..window },
            HandleEvent::Identifier(identifier) => WindowModel {
                identifier: Some(identifier@),
                ..window
            },
            _ => window,
        }
    }

    /// The list reported something of a window. One that was closed is gone.
    pub open spec fn after_handle_event(self, ext: u64, event: HandleEvent) -> Self {
        let windows = with_window(self.windows, ext);
        let slot = slot_of(windows, ext);
        AppModel {
            windows: if event is Closed {
                windows.remove(slot)
            } else {
                windows.update(slot, (ext, Self::noted(windows[slot].1, event)))
            },
            dirty: true,
            ..self
        }
    }

    /// The place of the window that an extension handle belongs to; the number
    /// of windows if it belongs to none.
    pub open spec fn slot_of_cosmic(self, cosmic: u64) -> int {
        if self.cosmic_to_ext.dom().contains(cosmic) {
            slot_of(self.windows, self.cosmic_to_ext[cosmic])
        } else {
            self.windows.len() as int
        }
    }

    /// The extension reported the states of a window.
    pub open spec fn after_states(self, cosmic: u64, states: Seq<u32>) -> Self {
        let slot = self.slot_of_cosmic(cosmic);
        AppModel {
            windows: if slot < self.windows.len() {
                self.windows.update(
                    slot,
                    (self.windows[slot].0, WindowModel { states, ..self.windows[slot].1 }),
                )
            } else {
                self.windows
            },
            dirty: true,
            ..self
        }
    }

    /// The extension reported the place of a window.
    pub open spec fn after_geometry(self, cosmic: u64, geometry: Geometry) -> Self {
        let slot = self.slot_of_cosmic(cosmic);
        AppModel {
            windows: if slot < self.windows.len() {
                self.windows.update(
                    slot,
                    (
                        self.windows[slot].0,
                        WindowModel { geometry: Some(geometry), ..self.windows[slot].1 },
                    ),
                )
            } else {
                self.windows
            },
            dirty: true,
            ..self
        }
    }

    /// The pointer did something.
    pub open spec fn after_pointer(self, event: PointerEvent) -> Self {
        match event {
            PointerEvent::At(x, y) => AppModel { cursor: Some((x, y)), dirty: true, ..self },
            PointerEvent::Leave => AppModel { cursor: None, dirty: true, ..self },
            PointerEvent::Other => self,
        }
    }

    /// What a buffer of `w` times `h` pixels takes.
    pub open spec fn buffer_action(self, w: i32, h: i32) -> BufferAction {
        if self.buffer && self.screen_w == w && self.screen_h == h {
            BufferAction::Keep
        } else if !self.shm {
            BufferAction::Unavailable
        } else {
            BufferAction::Allocate { stride: (4 * w) as i32, size: (4 * w * h) as u64 }
        }
    }

    /// A buffer of `w` times `h` pixels was asked for.
    pub open spec fn after_ensure_buffer(self, w: i32, h: i32) -> Self {
        if self.buffer_action(w, h) is Allocate {
            AppModel { buffer: false, last_rect: None, repaint: true, ..self }
        } else {
            self
        }
    }

    /// What the overlay needs after it got its size.
    pub open spec fn configure_action(self, width: u32, height: u32) -> Option<BufferAction> {
        if width > 0 && height > 0 {
            Some(self.buffer_action(width as i32, height as i32))
        } else {
            None
        }
    }

    /// The overlay got its size.
    pub open spec fn after_configure(self, width: u32, height: u32) -> Self {
        let sized = if width > 0 && height > 0 {
            self.after_ensure_buffer(width as i32, height as i32)
        } else {
            self
        };
        AppModel { mapped: true, ..sized }
    }

    /// A rectangle was marked.
    pub open spec fn after_marking(self, rect: Option<Geometry>) -> Self {
        AppModel { last_rect: rect, repaint: false, ..self }
    }

    /// Whether the `i`-th window is the one to be taken for the topmost at a
    /// point: the smallest of the candidates, and the first of those that are
    /// equally small.
    pub open spec fn is_topmost(self, px: Fixed, py: Fixed, i: int) -> bool {
        &&& 0 <= i < self.windows.len()
        &&& self.windows[i].1.is_candidate(px, py)
        &&& forall|j: int|
            0 <= j < self.windows.len() && (#[trigger] self.windows[j]).1.is_candidate(px, py)
                ==> self.windows[i].1.size() < self.windows[j].1.size() || (
            self.windows[i].1.size() == self.windows[j].1.size() && i <= j)
    }

    /// The window under the pointer is the `i`-th.
    pub open spec fn is_under_cursor(self, i: int) -> bool {
        self.cursor matches Some((px, py)) && self.is_topmost(px, py, i)
    }

    /// There is no window under the pointer.
    pub open spec fn nothing_under_cursor(self) -> bool {
        self.cursor matches Some((px, py)) ==> forall|j: int|
            0 <= j < self.windows.len() ==> !(#[trigger] self.windows[j]).1.is_candidate(px, py)
    }

    /// `rect` is the rectangle of the window under the pointer.
    pub open spec fn is_marked(self, rect: Option<Geometry>) -> bool {
        match rect {
            Some(geometry) => exists|i: int|
                self.is_under_cursor(i) && #[trigger] self.windows[i].1.geometry == Some(geometry),
            None => self.nothing_under_cursor(),
        }
    }
}

/// Whether a window can be seen at a point: it is not minimized, which is the state
/// number one, and its rectangle holds the point.
pub open spec fn is_seen_at(window: WindowModel, point: Option<(Fixed, Fixed)>) -> bool {
    &&& !window.states.contains(1u32)
    &&& point matches Some((px, py)) && (window.geometry matches Some(g) && {
        &&& 256 * g.x <= px.raw < 256 * (g.x + g.width)
        &&& 256 * g.y <= py.raw < 256 * (g.y + g.height)
    })
}

proof fn lemma_seen_at(window: WindowModel, px: Fixed, py: Fixed)
    ensures
        is_seen_at(window, Some((px, py))) <==> window.is_candidate(px, py),
{
    if let Some(geometry) = window.geometry {
        crate::fixed::law_rectangle_holds_its_points(geometry, px, py);
    }
}

impl AppState {
    /// The start: no window is known and nothing is painted.
    pub fn new(info: bool, shm: bool, overlay_surface: bool) -> (state: Self)
        ensures
            state@ == (AppModel {
                info,
                windows: seq![],
                cosmic_to_ext: Map::empty(),
                done: false,
                shm,
                overlay_surface,
                buffer: false,
                screen_w: 0,
                screen_h: 0,
                last_rect: None,
                repaint: false,
                mapped: false,
                cursor: None,
                dirty: false,
            }),
    {
        let state = AppState {
            info,
            windows: Vec::new(),
            cosmic_to_ext: HashMap::new(),
            done: false,
            shm,
            overlay_surface,
            buffer: false,
            screen_w: 0,
            screen_h: 0,
            last_rect: None,
            repaint: false,
            mapped: false,
            cursor: None,
            dirty: false,
        };
        assert(state@.windows =~= seq![]);
        state
    }

    fn find_window(&self, ext: u64) -> (slot: usize)
        ensures
            slot == slot_of(self@.windows, ext),
            slot <= self.windows@.len(),
    {
        proof {
            lemma_slot(self@.windows, ext);
        }
        let mut i: usize = 0;
        while i < self.windows.len()
            invariant
                i <= self.windows@.len(),
                i <= slot_of(self@.windows, ext),
                0 <= slot_of(self@.windows, ext) <= self.windows@.len(),
                slot_of(self@.windows, ext) < self.windows@.len() ==> self@.windows[slot_of(
                    self@.windows,
                    ext,
                )].0 == ext,
                forall|j: int|
                    0 <= j < slot_of(self@.windows, ext) ==> (#[trigger] self@.windows[j]).0 != ext,
            decreases self.windows@.len() - i,
        {
            assert(self@.windows[i as int].0 == self.windows@[i as int].0);
            if self.windows[i].0 == ext {
                return i;
            }
            i = i + 1;
        }
        i
    }

    fn ensure_window(&mut self, ext: u64) -> (slot: usize)
        ensures
            final(self)@ == (AppModel {
                windows: with_window(old(self)@.windows, ext),
                ..old(self)@
            }),
            slot == slot_of(final(self)@.windows, ext),
            slot < final(self).windows@.len(),
    {
        let slot: usize = self.find_window(ext);
        let ghost before = self@.windows;
        if slot == self.windows.len() {
            self.windows.push((ext, Window::blank()));
            assert(self@.windows =~= before.push((ext, blank_window())));
        }
        proof {
            lemma_slot(before, ext);
            lemma_with_window(before, ext);
        }
        slot
    }

    /// A window appeared. `cosmic` is the handle that the extension gave it; it
    /// does not count without the extension.
    pub fn on_toplevel(&mut self, ext: u64, cosmic: u64)
        ensures
            final(self)@ == old(self)@.after_toplevel(ext, cosmic),
    {
        self.ensure_window(ext);
        if self.info {
            self.cosmic_to_ext.insert(cosmic, ext);
        }
        self.dirty = true;
    }

    /// The list reported something of a window.
    pub fn on_handle_event(&mut self, ext: u64, event: HandleEvent)
        ensures
            final(self)@ == old(self)@.after_handle_event(ext, event),
    {
        let slot: usize = self.ensure_window(ext);
        let ghost middle = self@;
        proof {
            lemma_slot(middle.windows, ext);
        }
        let (handle, mut window) = self.windows.remove(slot);
        assert(window@ == middle.windows[slot as int].1);
        assert(handle == ext);
        let closed: bool = match event {
            HandleEvent::AppId(app_id) => {
                window.app_id = Some(app_id);
                false
            },
            HandleEvent::Title(title) => {
                window.title = Some(title);
                false
            },
            HandleEvent::Identifier(identifier) => {
                window.identifier = Some(identifier);
                false
            },
            HandleEvent::Closed => true,
            HandleEvent::Other => false,
        };
        if !closed {
            self.windows.insert(slot, (handle, window));
        }
        self.dirty = true;
        assert(self@.windows =~= old(self)@.after_handle_event(ext, event).windows);
    }

    /// Everything that was there at the start has been reported.
    pub fn on_info_done(&mut self)
        ensures
            final(self)@ == (AppModel { done: true, ..old(self)@ }),
    {
        self.done = true;
    }

    fn find_cosmic(&self, cosmic: u64) -> (slot: usize)
        ensures
            slot == self@.slot_of_cosmic(cosmic),
            slot <= self.windows@.len(),
    {
        match self.cosmic_to_ext.get(&cosmic) {
            Some(ext) => self.find_window(*ext),
            None => self.windows.len(),
        }
    }

    /// The extension reported the states of a window, as a packed array of
    /// numbers.
    pub fn on_cosmic_state(&mut self, cosmic: u64, states: &[u8], order: ByteOrder)
        ensures
            final(self)@ == old(self)@.after_states(
                cosmic,
                crate::wire::decoded_u32s(states@, order),
            ),
    {
        let decoded = decode_u32s(states, order);
        let slot: usize = self.find_cosmic(cosmic);
        if slot < self.windows.len() {
            let (handle, mut window) = self.windows.remove(slot);
            window.states = decoded;
            self.windows.insert(slot, (handle, window));
        }
        self.dirty = true;
        assert(self@.windows =~= old(self)@.after_states(
            cosmic,
            crate::wire::decoded_u32s(states@, order),
        ).windows);
    }

    /// The extension reported the place of a window.
    pub fn on_cosmic_geometry(&mut self, cosmic: u64, geometry: Geometry)
        ensures
            final(self)@ == old(self)@.after_geometry(cosmic, geometry),
    {
        let slot: usize = self.find_cosmic(cosmic);
        if slot < self.windows.len() {
            let (handle, mut window) = self.windows.remove(slot);
            window.geometry = Some(geometry);
            self.windows.insert(slot, (handle, window));
        }
        self.dirty = true;
        assert(self@.windows =~= old(self)@.after_geometry(cosmic, geometry).windows);
    }

    /// The pointer did something.
    pub fn on_pointer(&mut self, event: PointerEvent)
        ensures
            final(self)@ == old(self)@.after_pointer(event),
    {
        match event {
            PointerEvent::At(x, y) => {
                self.cursor = Some((x, y));
                self.dirty = true;
            },
            PointerEvent::Leave => {
                self.cursor = None;
                self.dirty = true;
            },
            PointerEvent::Other => {},
        }
    }

    /// The window under the pointer, by its place in the list. Which window is
    /// in front is not reported, so that the smallest is taken for it.
    pub fn window_under_cursor(&self) -> (found: Option<usize>)
        ensures
            match found {
                Some(i) => self@.is_under_cursor(i as int),
                None => self@.nothing_under_cursor(),
            },
            found matches Some(i) ==> i < self.windows@.len(),
            found is Some <==> exists|j: int|
                0 <= j < self.windows@.len() && is_seen_at(
                    (#[trigger] self@.windows[j]).1,
                    self.cursor,
                ),
            found matches Some(i) ==> is_seen_at(self@.windows[i as int].1, self.cursor),
            found matches Some(i) ==> forall|j: int|
                0 <= j < self.windows@.len() && is_seen_at(
                    (#[trigger] self@.windows[j]).1,
                    self.cursor,
                ) ==> {
                    let g = self@.windows[i as int].1.geometry->0;
                    let other = self@.windows[j].1.geometry->0;
                    &&& g.width * g.height <= other.width * other.height
                    &&& g.width * g.height == other.width * other.height ==> i <= j
                },
    {
        let (px, py) = match self.cursor {
            Some(cursor) => cursor,
            None => {
                return None;
            },
        };
        let mut best: Option<usize> = None;
        let mut best_area: i64 = 0;
        let mut i: usize = 0;
        while i < self.windows.len()
            invariant
                i <= self.windows@.len(),
                match best {
                    Some(b) => {
                        &&& b < i
                        &&& self@.windows[b as int].1.is_candidate(px, py)
                        &&& best_area == self@.windows[b as int].1.size()
                        &&& forall|j: int|
                            0 <= j < i && (#[trigger] self@.windows[j]).1.is_candidate(px, py)
                                ==> best_area < self@.windows[j].1.size() || (best_area
                                == self@.windows[j].1.size() && b <= j)
                    },
                    None => forall|j: int|
                        0 <= j < i ==> !(#[trigger] self@.windows[j]).1.is_candidate(px, py),
                },
            decreases self.windows@.len() - i,
        {
            let window = &self.windows[i].1;
            assert(self@.windows[i as int].1 == window@);
            if !window.has_state(STATE_MINIMIZED) && window.contains(px, py) {
                let area: i64 = match &window.geometry {
                    Some(geometry) => geometry.area(),
                    None => 0,
                };
                if best.is_none() || area < best_area {
                    best = Some(i);
                    best_area = area;
                }
            }
            i = i + 1;
        }
        proof {
            assert forall|j: int| 0 <= j < self.windows@.len() implies (is_seen_at(
                (#[trigger] self@.windows[j]).1,
                self.cursor,
            ) <==> self@.windows[j].1.is_candidate(px, py)) by {
                lemma_seen_at(self@.windows[j].1, px, py);
            }
            if let Some(b) = best {
                assert(is_seen_at(self@.windows[b as int].1, self.cursor));
            }
        }
        best
    }

    /// The rectangle of the window under the pointer.
    pub fn under_cursor_rect(&self) -> (rect: Option<Geometry>)
        ensures
            self@.is_marked(rect),
    {
        match self.window_under_cursor() {
            Some(i) => {
                assert(self@.windows[i as int].1 == self.windows@[i as int].1@);
                let rect = self.windows[i].1.geometry;
                assert(self@.windows[i as int].1.geometry == rect);
                rect
            },
            None => None,
        }
    }

    /// Gets the overlay a buffer of `w` times `h` pixels. If a new one is needed
    /// the old one is given up, and whatever is marked has to be painted anew.
    pub fn ensure_buffer(&mut self, w: i32, h: i32) -> (action: BufferAction)
        requires
            old(self)@.buffer_action(w, h) is Allocate ==> 0 < w && 0 < h && 4 * w * h <= i32::MAX,
        ensures
            action == old(self)@.buffer_action(w, h),
            final(self)@ == old(self)@.after_ensure_buffer(w, h),
    {
        if self.buffer && self.screen_w == w && self.screen_h == h {
            return BufferAction::Keep;
        }
        if !self.shm {
            return BufferAction::Unavailable;
        }
        self.buffer = false;
        self.last_rect = None;
        self.repaint = true;
        assert(4 * w <= 4 * w * h) by (nonlinear_arith)
            requires
                0 < w,
                0 < h,
        ;
        let stride: i32 = 4 * w;
        let size: i32 = stride * h;
        BufferAction::Allocate { stride, size: size as u64 }
    }

    /// The buffer that was asked for is there.
    pub fn buffer_ready(&mut self, w: i32, h: i32)
        ensures
            final(self)@ == (AppModel { buffer: true, screen_w: w, screen_h: h, ..old(self)@ }),
    {
        self.buffer = true;
        self.screen_w = w;
        self.screen_h = h;
    }

    /// The compositor gave the overlay its size. One without extent only puts
    /// the overlay on the screen; any other needs a buffer, and a painting once
    /// that is there.
    pub fn on_configure(&mut self, width: u32, height: u32) -> (action: Option<BufferAction>)
        requires
            old(self)@.configure_action(width, height) matches Some(action) && action is Allocate
                ==> 4 * width * height <= i32::MAX,
        ensures
            action == old(self)@.configure_action(width, height),
            final(self)@ == old(self)@.after_configure(width, height),
    {
        let action: Option<BufferAction> = if width > 0 && height > 0 {
            proof {
                assert(width <= 4 * width * height && height <= 4 * width * height)
                    by (nonlinear_arith)
                    requires
                        0 < width,
                        0 < height,
                ;
            }
            Some(self.ensure_buffer(width as i32, height as i32))
        } else {
            None
        };
        self.mapped = true;
        action
    }

    /// Marks the window under the pointer: paints its border into `pixels`
    /// unless it is marked already. Nothing is painted while there is no buffer.
    pub fn render(&mut self, pixels: &mut Vec<u32>) -> (outcome: RenderOutcome)
        requires
            old(self)@.buffer && 0 < old(self)@.screen_w && 0 < old(self)@.screen_h
                ==> old(self)@.screen_w * old(self)@.screen_h <= old(pixels)@.len(),
        ensures
            exists|rect: Option<Geometry>| #[trigger]
                old(self)@.is_marked(rect) && {
                    if rect == old(self)@.last_rect && !old(self)@.repaint {
                        &&& outcome == RenderOutcome::Unchanged
                        &&& final(self)@ == old(self)@
                        &&& final(pixels)@ == old(pixels)@
                    } else {
                        &&& final(self)@ == old(self)@.after_marking(rect)
                        &&& if old(self)@.overlay_surface && old(self)@.buffer {
                            &&& outcome == RenderOutcome::Painted
                            &&& final(pixels)@.len() == old(pixels)@.len()
                            &&& forall|i: int|
                                0 <= i < old(pixels)@.len() ==> #[trigger] final(pixels)@[i]
                                    == crate::paint::border_pixel(
                                    old(self)@.screen_w as int,
                                    old(self)@.screen_h as int,
                                    rect,
                                    i,
                                )
                        } else {
                            outcome == RenderOutcome::NoBuffer && final(pixels)@ == old(pixels)@
                        }
                    }
                },
    {
        let rect = self.under_cursor_rect();
        assert(old(self)@.is_marked(rect));
        let same: bool = match (&rect, &self.last_rect) {
            (Some(a), Some(b)) => *a == *b,
            (None, None) => true,
            _ => false,
        };
        if same && !self.repaint {
            return RenderOutcome::Unchanged;
        }
        self.last_rect = rect;
        self.repaint = false;
        if !self.overlay_surface || !self.buffer {
            return RenderOutcome::NoBuffer;
        }
        paint_border(pixels, self.screen_w, self.screen_h, rect);
        RenderOutcome::Painted
    }
}

/// However the windows are reported, no handle occurs twice among them.
pub proof fn law_handles_stay_unique(
    model: AppModel,
    ext: u64,
    cosmic: u64,
    event: HandleEvent,
    states: Seq<u32>,
    geometry: Geometry,
)
    requires
        model.well_formed(),
    ensures
        model.after_toplevel(ext, cosmic).well_formed(),
        model.after_handle_event(ext, event).well_formed(),
        model.after_states(cosmic, states).well_formed(),
        model.after_geometry(cosmic, geometry).well_formed(),
{
    let grown = with_window(model.windows, ext);
    lemma_slot(model.windows, ext);
    lemma_slot(grown, ext);
    lemma_with_window(model.windows, ext);
    assert(AppModel { windows: grown, ..model }.well_formed());
    let closed = grown.remove(slot_of(grown, ext));
    assert forall|i: int, j: int| 0 <= i < j < closed.len() implies (#[trigger] closed[i]).0 != (
    #[trigger] closed[j]).0 by {
        let slot = slot_of(grown, ext);
        let a = if i < slot {
            i
        } else {
            i + 1
        };
        let b = if j < slot {
            j
        } else {
            j + 1
        };
        assert(closed[i] == grown[a]);
        assert(closed[j] == grown[b]);
    }
    if model.cosmic_to_ext.dom().contains(cosmic) {
        lemma_slot(model.windows, model.cosmic_to_ext[cosmic]);
    }
}

/// A window that was closed is no longer known, and every other window is as it
/// was.
pub proof fn law_closed_window_is_gone(model: AppModel, ext: u64)
    requires
        model.well_formed(),
    ensures
        forall|i: int|
            0 <= i < model.after_handle_event(ext, HandleEvent::Closed).windows.len() ==> {
                let window = #[trigger] model.after_handle_event(
                    ext,
                    HandleEvent::Closed,
                ).windows[i];
                window.0 != ext && model.windows.contains(window)
            },
        forall|i: int|
            0 <= i < model.windows.len() && (#[trigger] model.windows[i]).0 != ext
                ==> model.after_handle_event(ext, HandleEvent::Closed).windows.contains(
                model.windows[i],
            ),
{
    let grown = with_window(model.windows, ext);
    let slot = slot_of(grown, ext);
    lemma_slot(model.windows, ext);
    lemma_slot(grown, ext);
    lemma_with_window(model.windows, ext);
    let left = model.after_handle_event(ext, HandleEvent::Closed).windows;
    assert forall|i: int| 0 <= i < left.len() implies {
        let window = #[trigger] left[i];
        window.0 != ext && model.windows.contains(window)
    } by {
        let a = if i < slot {
            i
        } else {
            i + 1
        };
        assert(left[i] == grown[a]);
        assert(grown[slot].0 == ext);
        assert(a < model.windows.len());
        assert(grown[a] == model.windows[a]);
    }
    assert forall|i: int|
        0 <= i < model.windows.len() && (#[trigger] model.windows[i]).0 != ext implies left.contains(
        model.windows[i],
    ) by {
        let a = if i < slot {
            i
        } else {
            i - 1
        };
        assert(grown[i] == model.windows[i]);
        assert(left[a] == model.windows[i]);
    }
}

/// At most one window is taken for the one under the pointer.
pub proof fn law_window_under_cursor_is_unique(model: AppModel, i: int, j: int)
    requires
        model.is_under_cursor(i),
        model.is_under_cursor(j),
    ensures
        i == j,
{
    let (px, py) = model.cursor.unwrap();
    assert(model.windows[i].1.is_candidate(px, py));
    assert(model.windows[j].1.is_candidate(px, py));
}

/// Once a rectangle is marked, marking again changes nothing: there is no other
/// rectangle to be marked as long as nothing else happens.
pub proof fn law_marking_is_stable(
    model: AppModel,
    rect: Option<Geometry>,
    again: Option<Geometry>,
)
    requires
        model.is_marked(rect),
        model.after_marking(rect).is_marked(again),
    ensures
        again == rect,
{
    let painted = model.after_marking(rect);
    if rect is Some && again is Some {
        let i = choose|i: int|
            model.is_under_cursor(i) && #[trigger] model.windows[i].1.geometry == rect;
        let j = choose|j: int|
            painted.is_under_cursor(j) && #[trigger] painted.windows[j].1.geometry == again;
        assert(model.is_under_cursor(j));
        law_window_under_cursor_is_unique(model, i, j);
    } else if rect is Some {
        let i = choose|i: int|
            model.is_under_cursor(i) && #[trigger] model.windows[i].1.geometry == rect;
        assert(painted.windows[i].1.is_candidate(model.cursor.unwrap().0, model.cursor.unwrap().1));
    } else if again is Some {
        let j = choose|j: int|
            painted.is_under_cursor(j) && #[trigger] painted.windows[j].1.geometry == again;
        assert(model.windows[j].1.is_candidate(model.cursor.unwrap().0, model.cursor.unwrap().1));
    }
}

/// What is said when the compositor lacks an interface that is needed.
pub fn missing_global_message(name: &str, reason: &str) -> (message: String)
    ensures
        message@ == "Required Wayland global '"@ + name@ + "' is not available: "@ + reason@,
{
    let mut message = "Required Wayland global '".to_owned();
    message.append(name);
    message.append("' is not available: ");
    message.append(reason);
    message
}

/// The name of the file behind the overlay's buffer.
pub fn shm_file_name(pid: u32) -> (name: String)
    ensures
        name@ == "getappid-shm-"@ + crate::text::decimal(pid as nat) + ".bin"@,
{
    let mut name = "getappid-shm-".to_owned();
    append_decimal(&mut name, pid as u128);
    name.append(".bin");
    name
}

/// The window that is found under the pointer holds the pointer, is not minimized,
/// and no other window that does so and is not minimized has a smaller area, nor does
/// one that appeared earlier have the same.
pub proof fn law_smallest_window_under_the_pointer_is_found(model: AppModel, i: int)
    requires
        model.is_under_cursor(i),
    ensures
        0 <= i < model.windows.len(),
        model.cursor is Some,
        model.windows[i].1.geometry is Some,
        !model.windows[i].1.states.contains(1u32),
        ({
            let (px, py) = model.cursor->0;
            let g = model.windows[i].1.geometry->0;
            &&& 256 * g.x <= px.raw < 256 * (g.x + g.width)
            &&& 256 * g.y <= py.raw < 256 * (g.y + g.height)
        }),
        forall|j: int|
            0 <= j < model.windows.len() ==> {
                let (px, py) = model.cursor->0;
                let g = model.windows[i].1.geometry->0;
                (#[trigger] model.windows[j]).1.geometry matches Some(other) ==> (
                !model.windows[j].1.states.contains(1u32) && 256 * other.x <= px.raw < 256 * (
                other.x + other.width) && 256 * other.y <= py.raw < 256 * (other.y + other.height)
                    ==> g.width * g.height <= other.width * other.height && (g.width * g.height
                    == other.width * other.height ==> i <= j))
            },
{
    let (px, py) = model.cursor->0;
    assert forall|j: int| 0 <= j < model.windows.len() implies {
        let (px, py) = model.cursor->0;
        let g = model.windows[i].1.geometry->0;
        (#[trigger] model.windows[j]).1.geometry matches Some(other) ==> (
        !model.windows[j].1.states.contains(1u32) && 256 * other.x <= px.raw < 256 * (other.x
            + other.width) && 256 * other.y <= py.raw < 256 * (other.y + other.height) ==> g.width
            * g.height <= other.width * other.height && (g.width * g.height == other.width
            * other.height ==> i <= j))
    } by {
        if model.windows[j].1.geometry is Some {
            let other = model.windows[j].1.geometry->0;
            crate::fixed::law_rectangle_holds_its_points(other, px, py);
        }
    }
}

/// Where no window is found, none that is not minimized holds the pointer.
pub proof fn law_nothing_is_found_only_where_nothing_is(model: AppModel, j: int, g: Geometry)
    requires
        model.nothing_under_cursor(),
        0 <= j < model.windows.len(),
        model.windows[j].1.geometry == Some(g),
        !model.windows[j].1.states.contains(1u32),
    ensures
        model.cursor matches Some((px, py)) ==> !(256 * g.x <= px.raw < 256 * (g.x + g.width) && 256
            * g.y <= py.raw < 256 * (g.y + g.height)),
{
    if let Some((px, py)) = model.cursor {
        crate::fixed::law_rectangle_holds_its_points(g, px, py);
        assert(!model.windows[j].1.is_candidate(px, py));
    }
}

/// What is marked is the rectangle of the window under the pointer, and nothing is
/// marked without one.
pub proof fn law_mark_is_around_the_window_under_the_pointer(
    model: AppModel,
    rect: Option<Geometry>,
    i: int,
)
    requires
        model.is_marked(rect),
    ensures
        model.is_under_cursor(i) ==> rect == model.windows[i].1.geometry && rect is Some,
        model.cursor is None ==> rect is None,
        rect is Some ==> exists|k: int| #[trigger] model.is_under_cursor(k),
{
    if model.is_under_cursor(i) {
        law_smallest_window_under_the_pointer_is_found(model, i);
        match rect {
            Some(geometry) => {
                let k = choose|k: int|
                    model.is_under_cursor(k) && #[trigger] model.windows[k].1.geometry == Some(
                        geometry,
                    );
                law_window_under_cursor_is_unique(model, i, k);
            },
            None => {
                let (px, py) = model.cursor->0;
                assert(model.windows[i].1.is_candidate(px, py));
            },
        }
    }
}

/// Whether a handle is that of the window at a place, and of none before it.
pub open spec fn is_handle_of(model: AppModel, at: int, ext: u64) -> bool {
    &&& 0 <= at < model.windows.len()
    &&& model.windows[at].0 == ext
    &&& forall|j: int| 0 <= j < at ==> (#[trigger] model.windows[j]).0 != ext
}

proof fn lemma_handle_of(model: AppModel, at: int, ext: u64)
    requires
        is_handle_of(model, at, ext),
    ensures
        slot_of(model.windows, ext) == at,
{
    lemma_slot(model.windows, ext);
    let slot = slot_of(model.windows, ext);
    if slot < at {
        assert(model.windows[slot].0 != ext);
    }
}

/// What the list reports of a window is noted at that window, in the place that the
/// report is about, and at no other.
pub proof fn law_reports_reach_their_window(model: AppModel, ext: u64, at: int, text: String)
    requires
        is_handle_of(model, at, ext),
    ensures
        ({
            let window = model.windows[at].1;
            let named = model.after_handle_event(ext, HandleEvent::AppId(text)).windows;
            let titled = model.after_handle_event(ext, HandleEvent::Title(text)).windows;
            let known = model.after_handle_event(ext, HandleEvent::Identifier(text)).windows;
            &&& named == model.windows.update(
                at,
                (ext, WindowModel { app_id: Some(text@), ..window }),
            )
            &&& titled == model.windows.update(
                at,
                (ext, WindowModel { title: Some(text@), ..window }),
            )
            &&& known == model.windows.update(
                at,
                (ext, WindowModel { identifier: Some(text@), ..window }),
            )
            &&& model.after_handle_event(ext, HandleEvent::Other).windows == model.windows
            &&& model.after_handle_event(ext, HandleEvent::Closed).windows == model.windows.remove(
                at,
            )
            &&& model.after_handle_event(ext, HandleEvent::Other).dirty
        }),
{
    lemma_handle_of(model, at, ext);
    assert(model.after_handle_event(ext, HandleEvent::Other).windows =~= model.windows);
}

/// States and places that the extension reports are noted at the window that
/// appeared with that handle, and at no other; those of a window that is not known
/// are noted nowhere.
pub proof fn law_extension_reports_reach_their_window(
    model: AppModel,
    cosmic: u64,
    at: int,
    states: Seq<u32>,
    geometry: Geometry,
)
    requires
        model.cosmic_to_ext.dom().contains(cosmic),
        is_handle_of(model, at, model.cosmic_to_ext[cosmic]),
    ensures
        model.after_states(cosmic, states).windows == model.windows.update(
            at,
            (model.windows[at].0, WindowModel { states, ..model.windows[at].1 }),
        ),
        model.after_geometry(cosmic, geometry).windows == model.windows.update(
            at,
            (
                model.windows[at].0,
                WindowModel { geometry: Some(geometry), ..model.windows[at].1 },
            ),
        ),
        model.after_states(cosmic, states).dirty,
        model.after_geometry(cosmic, geometry).dirty,
{
    lemma_handle_of(model, at, model.cosmic_to_ext[cosmic]);
}

/// A window that appears is known from then on, with nothing known of it, and its
/// handle in the extension leads to it.
pub proof fn law_new_windows_are_known(model: AppModel, ext: u64, cosmic: u64)
    requires
        forall|j: int| 0 <= j < model.windows.len() ==> (#[trigger] model.windows[j]).0 != ext,
    ensures
        model.after_toplevel(ext, cosmic).windows == model.windows.push(
            (
                ext,
                WindowModel {
                    app_id: None,
                    title: None,
                    identifier: None,
                    states: seq![],
                    geometry: None,
                },
            ),
        ),
        model.info ==> model.after_toplevel(ext, cosmic).cosmic_to_ext.dom().contains(cosmic)
            && model.after_toplevel(ext, cosmic).cosmic_to_ext[cosmic] == ext,
        model.after_toplevel(ext, cosmic).dirty,
{
    lemma_slot(model.windows, ext);
}

/// The pointer is where it was last seen on the overlay, and nowhere once it left.
pub proof fn law_pointer_is_where_it_was_seen(model: AppModel, x: Fixed, y: Fixed)
    ensures
        model.after_pointer(PointerEvent::At(x, y)).cursor == Some((x, y)),
        model.after_pointer(PointerEvent::At(x, y)).dirty,
        model.after_pointer(PointerEvent::Leave).cursor is None,
        model.after_pointer(PointerEvent::Leave).dirty,
        model.after_pointer(PointerEvent::Other) == model,
        model.after_pointer(PointerEvent::At(x, y)).windows == model.windows,
        model.after_pointer(PointerEvent::Leave).windows == model.windows,
{
}

/// A buffer has four bytes for every pixel. It is kept as long as it has the size
/// of the screen; a new one makes the next painting happen.
pub proof fn law_buffer_fits_the_screen(model: AppModel, w: i32, h: i32)
    requires
        0 < w,
        0 < h,
        4 * w * h <= i32::MAX,
    ensures
        model.buffer_action(w, h) matches BufferAction::Allocate { stride, size } ==> stride == 4
            * w && size == stride * h && model.after_ensure_buffer(w, h).repaint
            && !model.after_ensure_buffer(w, h).buffer,
        model.buffer_action(w, h) is Keep <==> model.buffer && model.screen_w == w
            && model.screen_h == h,
        model.buffer_action(w, h) is Unavailable ==> !model.shm,
        model.shm && !(model.buffer && model.screen_w == w && model.screen_h == h)
            ==> model.buffer_action(w, h) is Allocate,
        model.after_configure(w as u32, h as u32).mapped,
        model.configure_action(w as u32, h as u32) == Some(model.buffer_action(w, h)),
{
    assert(4 * w <= 4 * w * h) by (nonlinear_arith)
        requires
            0 < w,
            0 < h,
    ;
    assert(4 * w * h == (4 * w) * h);
}

/// A report of a window that is not known yet makes it known, with what was reported;
/// that it was closed does not.
pub proof fn law_reports_make_windows_known(model: AppModel, ext: u64, text: String)
    requires
        forall|j: int| 0 <= j < model.windows.len() ==> (#[trigger] model.windows[j]).0 != ext,
    ensures
        ({
            let fresh = WindowModel {
                app_id: None,
                title: None,
                identifier: None,
                states: seq![],
                geometry: None,
            };
            &&& model.after_handle_event(ext, HandleEvent::AppId(text)).windows
                == model.windows.push((ext, WindowModel { app_id: Some(text@), ..fresh }))
            &&& model.after_handle_event(ext, HandleEvent::Title(text)).windows
                == model.windows.push((ext, WindowModel { title: Some(text@), ..fresh }))
            &&& model.after_handle_event(ext, HandleEvent::Identifier(text)).windows
                == model.windows.push((ext, WindowModel { identifier: Some(text@), ..fresh }))
            &&& model.after_handle_event(ext, HandleEvent::Other).windows == model.windows.push(
                (ext, fresh),
            )
            &&& model.after_handle_event(ext, HandleEvent::Closed).windows == model.windows
        }),
{
    lemma_slot(model.windows, ext);
    lemma_with_window(model.windows, ext);
    let grown = model.windows.push((ext, blank_window()));
    assert(with_window(model.windows, ext) == grown);
    assert(slot_of(grown, ext) == model.windows.len());
    assert(grown.remove(model.windows.len() as int) =~= model.windows);
    let named = (ext, WindowModel { app_id: Some(text@), ..blank_window() });
    let titled = (ext, WindowModel { title: Some(text@), ..blank_window() });
    let known = (ext, WindowModel { identifier: Some(text@), ..blank_window() });
    assert(grown.update(model.windows.len() as int, named) =~= model.windows.push(named));
    assert(grown.update(model.windows.len() as int, titled) =~= model.windows.push(titled));
    assert(grown.update(model.windows.len() as int, known) =~= model.windows.push(known));
    assert(grown.update(model.windows.len() as int, (ext, blank_window())) =~= grown);
}

/// States and places that are reported under a handle which belongs to no window
/// change no window.
pub proof fn law_stray_reports_change_no_window(
    model: AppModel,
    cosmic: u64,
    states: Seq<u32>,
    geometry: Geometry,
)
    requires
        model.cosmic_to_ext.dom().contains(cosmic) ==> forall|j: int|
            0 <= j < model.windows.len() ==> (#[trigger] model.windows[j]).0
                != model.cosmic_to_ext[cosmic],
    ensures
        model.after_states(cosmic, states).windows == model.windows,
        model.after_geometry(cosmic, geometry).windows == model.windows,
{
    if model.cosmic_to_ext.dom().contains(cosmic) {
        lemma_slot(model.windows, model.cosmic_to_ext[cosmic]);
    }
}

/// What is marked is remembered, and so is that it has been painted; nothing else
/// changes. A new buffer forgets both.
pub proof fn law_marking_is_remembered(model: AppModel, rect: Option<Geometry>, w: i32, h: i32)
    ensures
        model.after_marking(rect).last_rect == rect,
        !model.after_marking(rect).repaint,
        model.after_marking(rect) == (AppModel {
            last_rect: rect,
            repaint: false,
            ..model
        }),
        model.buffer_action(w, h) is Allocate ==> model.after_ensure_buffer(w, h).last_rect is None
            && model.after_ensure_buffer(w, h).repaint && model.after_ensure_buffer(w, h).windows
            == model.windows && model.after_ensure_buffer(w, h).cursor == model.cursor,
        !(model.buffer_action(w, h) is Allocate) ==> model.after_ensure_buffer(w, h) == model,
{
}

/// A size without extent only puts the overlay on the screen.
pub proof fn law_size_without_extent_needs_no_buffer(model: AppModel, width: u32, height: u32)
    requires
        width == 0 || height == 0,
    ensures
        model.configure_action(width, height) is None,
        model.after_configure(width, height) == (AppModel { mapped: true, ..model }),
{
}

/// A window that is known already and appears once more stays as it is; its handle in
/// the extension leads to it from then on.
pub proof fn law_known_windows_stay_as_they_are(model: AppModel, ext: u64, cosmic: u64, at: int)
    requires
        is_handle_of(model, at, ext),
    ensures
        model.after_toplevel(ext, cosmic).windows == model.windows,
        model.after_toplevel(ext, cosmic).cosmic_to_ext == if model.info {
            model.cosmic_to_ext.insert(cosmic, ext)
        } else {
            model.cosmic_to_ext
        },
{
    lemma_handle_of(model, at, ext);
}

} // verus!
