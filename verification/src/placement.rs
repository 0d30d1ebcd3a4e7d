//! Where the overlay opens: at the pointer, but never off the screen.

use vstd::prelude::*;

use crate::fixed::Fixed;

verus! {

/// How far the overlay keeps from the edges of the screen.
pub const SCREEN_MARGIN: i32 = 5;

/// What the place of the overlay depends on.
#[derive(Clone, Copy, Debug, PartialEq, Eq, Structural)]
pub struct OverlayGeometry {
    /// The pointer.
    pub x: Fixed,
    pub y: Fixed,
    /// The least size of the overlay.
    pub overlay_width: i32,
    pub overlay_height: i32,
    /// The size of the screen; not positive as long as it is unknown.
    pub monitor_width: i32,
    pub monitor_height: i32,
}

/// The distances of the overlay from the upper and the left edge of the screen.
#[derive(Clone, Copy, Debug, PartialEq, Eq, Structural)]
pub struct Margins {
    pub top: i32,
    pub left: i32,
}

/// The greater of two numbers.
pub open spec fn greater(a: int, b: int) -> int {
    if a > b {
        a
    } else {
        b
    }
}

/// The greatest distance at which a window of a length still ends before the
/// edge of the screen; at least the margin, if there is no such distance.
pub open spec fn last_place(monitor: int, window: int) -> int {
    greater(monitor - window - SCREEN_MARGIN, SCREEN_MARGIN as int)
}

/// Where a window of a length opens on one axis: at the pointer, brought between
/// the margin and the last place.
pub open spec fn placed(pointer: Fixed, monitor: int, window: int) -> int {
    let last = last_place(monitor, window);
    if !pointer.is_at_least(SCREEN_MARGIN as int) {
        SCREEN_MARGIN as int
    } else if pointer.is_at_least(last) {
        last
    } else {
        pointer.whole()
    }
}

/// Where a window opens on one axis.
fn place(pointer: Fixed, monitor: i32, window: i32) -> (at: i32)
    ensures
        at == placed(pointer, monitor as int, window as int),
{
    let room: i64 = monitor as i64 - window as i64 - SCREEN_MARGIN as i64;
    let last: i64 = if room > SCREEN_MARGIN as i64 {
        room
    } else {
        SCREEN_MARGIN as i64
    };
    if !pointer.at_least(SCREEN_MARGIN as i64) {
        SCREEN_MARGIN
    } else if pointer.at_least(last) {
        last as i32
    } else {
        pointer.truncated()
    }
}

impl OverlayGeometry {
    /// Where the overlay opens as long as its real size is not known: at the
    /// pointer.
    pub fn initial_margins(&self) -> (margins: Margins)
        ensures
            margins == (Margins { top: self.y.whole() as i32, left: self.x.whole() as i32 }),
            margins.top == self.y.whole(),
            margins.left == self.x.whole(),
    {
        Margins { top: self.y.truncated(), left: self.x.truncated() }
    }

    /// Whether the size of the screen is known.
    pub open spec fn knows_screen(self) -> bool {
        self.monitor_width > 0 && self.monitor_height > 0
    }

    /// Where the overlay goes once it has been given a size. It stays where it is
    /// if the size of the screen is not known.
    pub fn mapped_margins(&self, allocated_width: i32, allocated_height: i32) -> (margins: Option<
        Margins,
    >)
        ensures
            margins is Some <==> self.knows_screen(),
            margins matches Some(m) ==> m.left == placed(
                self.x,
                self.monitor_width as int,
                greater(allocated_width as int, self.overlay_width as int),
            ),
            margins matches Some(m) ==> m.top == placed(
                self.y,
                self.monitor_height as int,
                greater(allocated_height as int, self.overlay_height as int),
            ),
            margins matches Some(m) ==> m.left >= 5 && m.top >= 5,
            margins matches Some(m) ==> (allocated_width + 10 <= self.monitor_width
                && self.overlay_width + 10 <= self.monitor_width ==> m.left + allocated_width + 5
                <= self.monitor_width && m.left + self.overlay_width + 5 <= self.monitor_width),
            margins matches Some(m) ==> (allocated_height + 10 <= self.monitor_height
                && self.overlay_height + 10 <= self.monitor_height ==> m.top + allocated_height + 5
                <= self.monitor_height && m.top + self.overlay_height + 5 <= self.monitor_height),
    {
        if self.monitor_width <= 0 || self.monitor_height <= 0 {
            return None;
        }
        let width: i32 = if allocated_width > self.overlay_width {
            allocated_width
        } else {
            self.overlay_width
        };
        let height: i32 = if allocated_height > self.overlay_height {
            allocated_height
        } else {
            self.overlay_height
        };
        Some(
            Margins {
                top: place(self.y, self.monitor_height, height),
                left: place(self.x, self.monitor_width, width),
            },
        )
    }
}

/// A window never opens closer to the near edge than the margin, and one that
/// fits on the screen with a margin on both sides lies wholly on it.
pub proof fn law_window_stays_on_screen(pointer: Fixed, monitor: int, window: int)
    ensures
        placed(pointer, monitor, window) >= SCREEN_MARGIN,
        window + 2 * SCREEN_MARGIN <= monitor ==> placed(pointer, monitor, window) + window
            + SCREEN_MARGIN <= monitor,
{
}

/// Where the pointer leaves room for the window, the window opens at the
/// pointer.
pub proof fn law_window_opens_at_pointer(pointer: Fixed, monitor: int, window: int)
    requires
        SCREEN_MARGIN <= pointer.whole(),
        pointer.whole() + window + SCREEN_MARGIN <= monitor,
    ensures
        placed(pointer, monitor, window) == pointer.whole(),
{
}

/// The distance of two numbers.
pub open spec fn distance(a: int, b: int) -> int {
    if a < b {
        b - a
    } else {
        a - b
    }
}

/// A window that fits opens as near to the pointer as any place at which it keeps
/// five pixels from both edges; one that does not fit keeps them from the near edge.
pub proof fn law_window_opens_nearest_to_pointer(
    pointer: Fixed,
    monitor: int,
    window: int,
    other: int,
)
    ensures
        5 <= placed(pointer, monitor, window),
        window + 10 <= monitor ==> placed(pointer, monitor, window) + window + 5 <= monitor,
        5 <= other && other + window + 5 <= monitor ==> distance(
            placed(pointer, monitor, window),
            pointer.whole(),
        ) <= distance(other, pointer.whole()),
        window + 10 > monitor ==> placed(pointer, monitor, window) == 5,
{
    crate::fixed::law_truncation_drops_the_fraction(pointer);
}

} // verus!
