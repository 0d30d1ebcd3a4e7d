//! The life of one overlay: the capture layer waits for the pointer, the overlay
//! opens, and everything comes down again when it is closed.

use vstd::prelude::*;

verus! {

/// What of the overlay exists, and whether it is to be closed.
#[derive(Clone, Copy, Debug, PartialEq, Eq, Structural)]
pub struct Session {
    pub close_requested: bool,
    /// Whether there is an application to quit.
    pub app: bool,
    /// Whether there is a window to close.
    pub window: bool,
}

/// A step of closing the overlay.
#[derive(Clone, Copy, Debug, PartialEq, Eq, Structural)]
pub enum QuitStep {
    QuitApplication,
    CloseWindow,
}

impl Session {
    /// The session before the overlay has opened.
    pub fn new() -> (session: Self)
        ensures
            session == (Session { close_requested: false, app: false, window: false }),
    {
        Session { close_requested: false, app: false, window: false }
    }

    /// The overlay has opened.
    pub fn opened(&mut self)
        ensures
            *final(self) == (Session { app: true, window: true, ..*old(self) }),
    {
        self.app = true;
        self.window = true;
    }

    /// The application has returned.
    pub fn finished(&mut self)
        ensures
            *final(self) == (Session { app: false, window: false, ..*old(self) }),
    {
        self.app = false;
        self.window = false;
    }

    /// Whether the overlay is to be closed.
    pub fn is_close_requested(&self) -> (b: bool)
        ensures
            b == self.close_requested,
    {
        self.close_requested
    }

    /// Forgets that the overlay is to be closed.
    pub fn reset_close_flags(&mut self)
        ensures
            *final(self) == (Session { close_requested: false, ..*old(self) }),
    {
        self.close_requested = false;
    }

    /// Notes that the overlay is to be closed. The application is quit first,
    /// then the window is closed, each if there is one.
    pub fn request_quit(&mut self) -> (steps: Vec<QuitStep>)
        ensures
            *final(self) == (Session { close_requested: true, ..*old(self) }),
            steps@ == (if old(self).app {
                seq![QuitStep::QuitApplication]
            } else {
                seq![]
            }) + (if old(self).window {
                seq![QuitStep::CloseWindow]
            } else {
                seq![]
            }),
    {
        self.close_requested = true;
        let mut steps: Vec<QuitStep> = Vec::new();
        if self.app {
            steps.push(QuitStep::QuitApplication);
        }
        if self.window {
            steps.push(QuitStep::CloseWindow);
        }
        steps
    }
}

/// The loop that a session runs in.
#[derive(Clone, Copy, Debug, PartialEq, Eq, Structural)]
pub struct MainLoop {
    /// Whether the overlay has been opened.
    pub opened: bool,
}

/// What the loop does after events were dispatched.
#[derive(Clone, Copy, Debug, PartialEq, Eq, Structural)]
pub enum AfterDispatch {
    /// Take the capture layer down and end.
    CleanUpAndEnd,
    /// Open the overlay, then see whether it is to be closed.
    OpenOverlay,
    /// See whether the overlay is to be closed.
    CheckClose,
}

/// What the loop does after it has seen whether the overlay is to be closed.
#[derive(Clone, Copy, Debug, PartialEq, Eq, Structural)]
pub enum AfterCheck {
    /// Reset the close flags, take the capture layer down and end.
    CloseAndEnd,
    /// Let the overlay handle its own events, then go on.
    IterateOverlay,
    /// Go on.
    GoOn,
}

impl MainLoop {
    /// The loop at its start.
    pub fn new() -> (state: Self)
        ensures
            state == (MainLoop { opened: false }),
    {
        MainLoop { opened: false }
    }

    /// What happens after a dispatch: the loop ends if another invocation asked
    /// for it, and opens the overlay as soon as the pointer's place is known.
    pub open spec fn dispatch_action(self, alive: bool, coords_received: bool) -> AfterDispatch {
        if !alive {
            AfterDispatch::CleanUpAndEnd
        } else if coords_received && !self.opened {
            AfterDispatch::OpenOverlay
        } else {
            AfterDispatch::CheckClose
        }
    }

    /// Events were dispatched. `alive` is false if another invocation asked the
    /// overlay to close.
    pub fn on_dispatched(&mut self, alive: bool, coords_received: bool) -> (action: AfterDispatch)
        ensures
            action == old(self).dispatch_action(alive, coords_received),
            final(self).opened == (old(self).opened || action == AfterDispatch::OpenOverlay),
    {
        if !alive {
            AfterDispatch::CleanUpAndEnd
        } else if coords_received && !self.opened {
            self.opened = true;
            AfterDispatch::OpenOverlay
        } else {
            AfterDispatch::CheckClose
        }
    }

    /// What happens after the check: an overlay that was opened is closed if
    /// that was requested or if the capture layer was clicked.
    pub fn on_checked(&self, close_requested: bool, capture_layer_clicked: bool) -> (action:
        AfterCheck)
        ensures
            action == if !self.opened {
                AfterCheck::GoOn
            } else if close_requested || capture_layer_clicked {
                AfterCheck::CloseAndEnd
            } else {
                AfterCheck::IterateOverlay
            },
    {
        if !self.opened {
            AfterCheck::GoOn
        } else if close_requested || capture_layer_clicked {
            AfterCheck::CloseAndEnd
        } else {
            AfterCheck::IterateOverlay
        }
    }
}

/// The loop after so many dispatches.
pub open spec fn loop_after(start: MainLoop, dispatches: Seq<(bool, bool)>) -> MainLoop
    decreases dispatches.len(),
{
    if dispatches.len() == 0 {
        start
    } else {
        let before = loop_after(start, dispatches.drop_last());
        let (alive, coords) = dispatches.last();
        MainLoop {
            opened: before.opened || before.dispatch_action(alive, coords)
                == AfterDispatch::OpenOverlay,
        }
    }
}

/// In one run of the loop the overlay opens at most once.
pub proof fn law_overlay_opens_once(start: MainLoop, dispatches: Seq<(bool, bool)>, i: int, j: int)
    requires
        0 <= i < j < dispatches.len(),
        loop_after(start, dispatches.take(i)).dispatch_action(dispatches[i].0, dispatches[i].1)
            == AfterDispatch::OpenOverlay,
    ensures
        loop_after(start, dispatches.take(j)).dispatch_action(dispatches[j].0, dispatches[j].1)
            != AfterDispatch::OpenOverlay,
{
    assert(dispatches.take(i + 1).drop_last() =~= dispatches.take(i));
    assert(dispatches.take(i + 1).last() == dispatches[i]);
    assert(loop_after(start, dispatches.take(i + 1)).opened);
    lemma_stays_open(start, dispatches, i + 1, j);
}

proof fn lemma_stays_open(start: MainLoop, dispatches: Seq<(bool, bool)>, i: int, j: int)
    requires
        0 <= i <= j <= dispatches.len(),
        loop_after(start, dispatches.take(i)).opened,
    ensures
        loop_after(start, dispatches.take(j)).opened,
    decreases j - i,
{
    if i < j {
        assert(dispatches.take(i + 1).drop_last() =~= dispatches.take(i));
        lemma_stays_open(start, dispatches, i + 1, j);
    }
}

/// What is done next while waiting for the compositor or another invocation.
#[derive(Clone, Copy, Debug, PartialEq, Eq, Structural)]
pub enum WaitAction {
    /// See whether another invocation asked for the overlay to close, before
    /// anything else.
    CheckToggleFirst,
    /// Dispatch the events that are there already.
    DispatchFirst,
    /// Send what has been queued.
    Flush,
    /// See whether another invocation asked, each time around.
    CheckToggle,
    /// Announce that events are going to be read.
    PrepareRead,
    /// Dispatch the events that stood in the way of reading.
    DispatchUnread,
    /// Wait for the compositor or another invocation, with reading announced.
    Poll,
    /// Give reading up and see whether the other invocation asked.
    CheckToggleReady,
    /// Read the compositor's events.
    Read,
    /// Dispatch what has been read.
    DispatchRead,
    /// The waiting is over. Whether the overlay lives on.
    Finish(bool),
    /// Fail with the error that polling gave.
    Fail,
}

/// What an action has led to. A failure of anything but polling ends the waiting
/// with its error and is no event here.
#[derive(Clone, Copy, Debug, PartialEq, Eq, Structural)]
pub enum WaitEvent {
    /// Whether another invocation asked for the overlay to close.
    Toggle(bool),
    /// How many events were dispatched.
    Dispatched(usize),
    Flushed,
    /// Whether events can be read.
    Prepared(bool),
    /// Polling failed; because of a signal, or for another reason.
    PollFailed { interrupted: bool },
    /// Who has something to say.
    Polled { compositor: bool, toggle: bool },
    EventsRead,
}

/// What is done after an action has led to an event; nothing, if the event is no
/// answer to the action.
pub open spec fn wait_step(action: WaitAction, event: WaitEvent) -> Option<WaitAction> {
    match (action, event) {
        (WaitAction::CheckToggleFirst, WaitEvent::Toggle(requested)) => if requested {
            Some(WaitAction::Finish(false))
        } else {
            Some(WaitAction::DispatchFirst)
        },
        (WaitAction::DispatchFirst, WaitEvent::Dispatched(count)) => if count > 0 {
            Some(WaitAction::Finish(true))
        } else {
            Some(WaitAction::Flush)
        },
        (WaitAction::Flush, WaitEvent::Flushed) => Some(WaitAction::CheckToggle),
        (WaitAction::CheckToggle, WaitEvent::Toggle(requested)) => if requested {
            Some(WaitAction::Finish(false))
        } else {
            Some(WaitAction::PrepareRead)
        },
        (WaitAction::PrepareRead, WaitEvent::Prepared(ready)) => if ready {
            Some(WaitAction::Poll)
        } else {
            Some(WaitAction::DispatchUnread)
        },
        (WaitAction::DispatchUnread, WaitEvent::Dispatched(count)) => if count > 0 {
            Some(WaitAction::Finish(true))
        } else {
            Some(WaitAction::CheckToggle)
        },
        (WaitAction::Poll, WaitEvent::PollFailed { interrupted }) => if interrupted {
            Some(WaitAction::CheckToggle)
        } else {
            Some(WaitAction::Fail)
        },
        (WaitAction::Poll, WaitEvent::Polled { compositor, toggle }) => if toggle {
            Some(WaitAction::CheckToggleReady)
        } else if compositor {
            Some(WaitAction::Read)
        } else {
            Some(WaitAction::CheckToggle)
        },
        (WaitAction::CheckToggleReady, WaitEvent::Toggle(requested)) => Some(
            WaitAction::Finish(!requested),
        ),
        (WaitAction::Read, WaitEvent::EventsRead) => Some(WaitAction::DispatchRead),
        (WaitAction::DispatchRead, WaitEvent::Dispatched(_)) => Some(WaitAction::Finish(true)),
        _ => None,
    }
}

/// What is done after an action has led to an event. The waiting starts with
/// [`WaitAction::CheckToggleFirst`].
pub fn dispatch_wayland_or_toggle(action: WaitAction, event: WaitEvent) -> (next: Option<
    WaitAction,
>)
    ensures
        next == wait_step(action, event),
{
    match (action, event) {
        (WaitAction::CheckToggleFirst, WaitEvent::Toggle(requested)) => if requested {
            Some(WaitAction::Finish(false))
        } else {
            Some(WaitAction::DispatchFirst)
        },
        (WaitAction::DispatchFirst, WaitEvent::Dispatched(count)) => if count > 0 {
            Some(WaitAction::Finish(true))
        } else {
            Some(WaitAction::Flush)
        },
        (WaitAction::Flush, WaitEvent::Flushed) => Some(WaitAction::CheckToggle),
        (WaitAction::CheckToggle, WaitEvent::Toggle(requested)) => if requested {
            Some(WaitAction::Finish(false))
        } else {
            Some(WaitAction::PrepareRead)
        },
        (WaitAction::PrepareRead, WaitEvent::Prepared(ready)) => if ready {
            Some(WaitAction::Poll)
        } else {
            Some(WaitAction::DispatchUnread)
        },
        (WaitAction::DispatchUnread, WaitEvent::Dispatched(count)) => if count > 0 {
            Some(WaitAction::Finish(true))
        } else {
            Some(WaitAction::CheckToggle)
        },
        (WaitAction::Poll, WaitEvent::PollFailed { interrupted }) => if interrupted {
            Some(WaitAction::CheckToggle)
        } else {
            Some(WaitAction::Fail)
        },
        (WaitAction::Poll, WaitEvent::Polled { compositor, toggle }) => if toggle {
            Some(WaitAction::CheckToggleReady)
        } else if compositor {
            Some(WaitAction::Read)
        } else {
            Some(WaitAction::CheckToggle)
        },
        (WaitAction::CheckToggleReady, WaitEvent::Toggle(requested)) => Some(
            WaitAction::Finish(!requested),
        ),
        (WaitAction::Read, WaitEvent::EventsRead) => Some(WaitAction::DispatchRead),
        (WaitAction::DispatchRead, WaitEvent::Dispatched(_)) => Some(WaitAction::Finish(true)),
        _ => None,
    }
}

/// What is done after a whole run of events, if each of them answers the action
/// before it.
pub open spec fn waited(events: Seq<WaitEvent>) -> Option<WaitAction>
    decreases events.len(),
{
    if events.len() == 0 {
        Some(WaitAction::CheckToggleFirst)
    } else {
        match waited(events.drop_last()) {
            Some(action) => wait_step(action, events.last()),
            None => None,
        }
    }
}

/// The overlay is closed by the waiting if and only if another invocation asked
/// for it: no request is missed, and none is made up.
pub proof fn law_no_toggle_is_missed(events: Seq<WaitEvent>)
    requires
        waited(events) is Some,
    ensures
        waited(events) == Some(WaitAction::Finish(false)) <==> exists|i: int|
            0 <= i < events.len() && events[i] == WaitEvent::Toggle(true),
    decreases events.len(),
{
    if events.len() > 0 {
        let before = events.drop_last();
        law_no_toggle_is_missed(before);
        if waited(events) == Some(WaitAction::Finish(false)) {
            assert(events[events.len() - 1] == WaitEvent::Toggle(true));
        }
        assert forall|i: int| 0 <= i < events.len() && events[i] == WaitEvent::Toggle(true) implies
            waited(events) == Some(WaitAction::Finish(false)) by {
            if i < before.len() {
                assert(before[i] == WaitEvent::Toggle(true));
            }
        }
    }
}

/// The overlay is open exactly if it was at the start, or the pointer's place was
/// known after one of the dispatches while the overlay was wanted.
pub proof fn law_overlay_opens_with_the_pointer(start: MainLoop, dispatches: Seq<(bool, bool)>)
    ensures
        loop_after(start, dispatches).opened <==> start.opened || exists|i: int|
            0 <= i < dispatches.len() && dispatches[i] == (true, true),
    decreases dispatches.len(),
{
    if dispatches.len() > 0 {
        let before = dispatches.drop_last();
        law_overlay_opens_with_the_pointer(start, before);
        assert forall|i: int| 0 <= i < dispatches.len() && dispatches[i] == (
            true,
            true,
        ) implies loop_after(start, dispatches).opened by {
            if i < before.len() {
                assert(before[i] == (true, true));
            } else {
                assert(dispatches.last() == (true, true));
            }
        }
        if loop_after(start, before).opened && !start.opened {
            let i = choose|i: int| 0 <= i < before.len() && before[i] == (true, true);
            assert(dispatches[i] == (true, true));
        } else if loop_after(start, dispatches).opened && !start.opened {
            assert(dispatches[dispatches.len() - 1] == (true, true));
        }
    }
}

/// A request to close ends the loop whatever else has happened, and nothing else
/// does after a dispatch.
pub proof fn law_only_a_request_ends_the_loop(state: MainLoop, alive: bool, coords_received: bool)
    ensures
        state.dispatch_action(alive, coords_received) == AfterDispatch::CleanUpAndEnd <==> !alive,
        state.dispatch_action(alive, coords_received) == AfterDispatch::OpenOverlay <==> alive
            && coords_received && !state.opened,
{
}

/// The waiting goes on for the overlay only after events were dispatched, or after
/// it turned out that the other invocation had not asked. It fails only if polling
/// did for another reason than a signal.
pub proof fn law_waiting_ends_for_a_reason(events: Seq<WaitEvent>)
    requires
        events.len() > 0,
    ensures
        waited(events) == Some(WaitAction::Finish(true)) ==> events.last() is Dispatched
            || events.last() == WaitEvent::Toggle(false),
        waited(events) == Some(WaitAction::Fail) ==> events.last() == (WaitEvent::PollFailed {
            interrupted: false,
        }),
        waited(events.drop_last()) is Some && waited(events) is Some && (events.last() matches
            WaitEvent::Dispatched(count) && count > 0) ==> waited(events) == Some(
            WaitAction::Finish(true),
        ),
        waited(events) is Some && events.last() == (WaitEvent::PollFailed { interrupted: false })
            ==> waited(events) == Some(WaitAction::Fail),
        waited(events) is Some && events.last() == (WaitEvent::PollFailed { interrupted: true })
            ==> waited(events) == Some(WaitAction::CheckToggle),
{
}

/// Polling happens only with reading announced, and only after everything that was
/// queued has been sent. Reading happens only if the compositor has something to say
/// and no other invocation has; what was read is dispatched.
pub proof fn law_reading_is_announced(events: Seq<WaitEvent>)
    ensures
        waited(events) == Some(WaitAction::Poll) ==> events.len() > 0 && events.last()
            == WaitEvent::Prepared(true) && events.contains(WaitEvent::Flushed),
        waited(events) == Some(WaitAction::Read) ==> events.len() > 0 && events.last() == (
        WaitEvent::Polled { compositor: true, toggle: false }),
        waited(events) == Some(WaitAction::DispatchRead) ==> events.len() > 0 && events.last()
            == WaitEvent::EventsRead,
{
    lemma_sent_before(events);
}

proof fn lemma_sent_before(events: Seq<WaitEvent>)
    ensures
        waited(events) matches Some(action) && (action == WaitAction::Poll || action
            == WaitAction::CheckToggle || action == WaitAction::PrepareRead || action
            == WaitAction::DispatchUnread) ==> events.contains(WaitEvent::Flushed),
    decreases events.len(),
{
    if events.len() > 0 {
        let before = events.drop_last();
        lemma_sent_before(before);
        assert(events[events.len() - 1] == events.last());
        if before.contains(WaitEvent::Flushed) {
            assert(events[before.index_of(WaitEvent::Flushed)] == WaitEvent::Flushed);
        }
    }
}

/// Every action but the last one can be answered, and once the waiting is over
/// nothing more happens.
pub proof fn law_waiting_never_gets_stuck(action: WaitAction)
    ensures
        action is Finish || action == WaitAction::Fail <==> forall|event: WaitEvent|
            (#[trigger] wait_step(action, event)) is None,
{
    assert(wait_step(WaitAction::CheckToggleFirst, WaitEvent::Toggle(true)) is Some);
    assert(wait_step(WaitAction::DispatchFirst, WaitEvent::Dispatched(0)) is Some);
    assert(wait_step(WaitAction::Flush, WaitEvent::Flushed) is Some);
    assert(wait_step(WaitAction::CheckToggle, WaitEvent::Toggle(true)) is Some);
    assert(wait_step(WaitAction::PrepareRead, WaitEvent::Prepared(true)) is Some);
    assert(wait_step(WaitAction::DispatchUnread, WaitEvent::Dispatched(0)) is Some);
    assert(wait_step(WaitAction::Poll, WaitEvent::PollFailed { interrupted: true }) is Some);
    assert(wait_step(WaitAction::CheckToggleReady, WaitEvent::Toggle(true)) is Some);
    assert(wait_step(WaitAction::Read, WaitEvent::EventsRead) is Some);
    assert(wait_step(WaitAction::DispatchRead, WaitEvent::Dispatched(0)) is Some);
}

/// The waiting goes from what happened to what is due: what is there already is
/// dispatched before anything is sent, what has been sent is followed by a look at the
/// other invocation, and that by the announcement of reading. If reading cannot be
/// announced, what stands in its way is dispatched. After polling, the other
/// invocation comes before the compositor.
pub proof fn law_waiting_does_what_is_due(events: Seq<WaitEvent>)
    requires
        events.len() > 0,
        waited(events) is Some,
    ensures
        events.last() == WaitEvent::Toggle(false) ==> waited(events) == Some(
            match waited(events.drop_last())->0 {
                WaitAction::CheckToggleFirst => WaitAction::DispatchFirst,
                WaitAction::CheckToggle => WaitAction::PrepareRead,
                _ => WaitAction::Finish(true),
            },
        ),
        events.last() == WaitEvent::Dispatched(0) ==> waited(events) == Some(
            match waited(events.drop_last())->0 {
                WaitAction::DispatchFirst => WaitAction::Flush,
                WaitAction::DispatchUnread => WaitAction::CheckToggle,
                _ => WaitAction::Finish(true),
            },
        ),
        events.last() == WaitEvent::Flushed ==> waited(events) == Some(WaitAction::CheckToggle),
        events.last() == WaitEvent::Prepared(false) ==> waited(events) == Some(
            WaitAction::DispatchUnread,
        ),
        events.last() == WaitEvent::Prepared(true) ==> waited(events) == Some(WaitAction::Poll),
        events.last() == WaitEvent::EventsRead ==> waited(events) == Some(WaitAction::DispatchRead),
        events.last() matches WaitEvent::Polled { compositor, toggle } ==> waited(events) == Some(
            if toggle {
                WaitAction::CheckToggleReady
            } else if compositor {
                WaitAction::Read
            } else {
                WaitAction::CheckToggle
            },
        ),
        waited(events.drop_last()) == Some(WaitAction::Poll) ==> events.last() is Polled
            || events.last() is PollFailed,
{
}

} // verus!
