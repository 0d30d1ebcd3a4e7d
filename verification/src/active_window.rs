//! Which window has the focus, and whether it is a terminal. Windows are known
//! by two handles: the list's, under which the application's name is reported,
//! and the extension's, under which the state is.

use std::collections::HashMap;
use vstd::prelude::*;
use vstd::string::*;

use crate::text::{contains, to_lowercase};
use crate::wire::{contains_u32, decode_u32s, ByteOrder};

verus! {

broadcast use vstd::std_specs::hash::group_hash_axioms;

/// The number that stands for `activated` in a window's state.
pub const STATE_ACTIVATED: u32 = 2;

/// How many round trips to the compositor a look at the focus takes at most.
pub const FOCUS_ROUNDS: u32 = 20;

/// The pause between two round trips, in milliseconds.
pub const ROUND_PAUSE_MS: u64 = 15;

/// What the compositor has reported so far.
pub struct ActiveWindowState {
    /// Whether the extension that reports states is there.
    pub info: bool,
    /// The application names, by list handle.
    pub app_ids: HashMap<u64, String>,
    /// The list handles, by extension handle.
    pub cosmic_to_ext: HashMap<u64, u64>,
    /// The list handle of the window that is currently reported as activated.
    pub activated_ext: Option<u64>,
    /// Whether everything that was there at the start has been reported.
    pub done: bool,
}

/// The reports so far, as mathematical values.
#[verifier::ext_equal]
pub struct ActiveWindowModel {
    pub info: bool,
    pub app_ids: Map<u64, String>,
    pub cosmic_to_ext: Map<u64, u64>,
    pub activated_ext: Option<u64>,
    pub done: bool,
}

impl View for ActiveWindowState {
    type V = ActiveWindowModel;

    open spec fn view(&self) -> ActiveWindowModel {
        ActiveWindowModel {
            info: self.info,
            app_ids: self.app_ids@,
            cosmic_to_ext: self.cosmic_to_ext@,
            activated_ext: self.activated_ext,
            done: self.done,
        }
    }
}

impl ActiveWindowModel {
    /// A window appeared; `cosmic` is its handle in the extension.
    pub open spec fn after_toplevel(self, ext: u64, cosmic: u64) -> Self {
        if self.info {
            ActiveWindowModel { cosmic_to_ext: self.cosmic_to_ext.insert(cosmic, ext), ..self }
        } else {
            self
        }
    }

    /// A window's application was named.
    pub open spec fn after_app_id(self, ext: u64, app_id: String) -> Self {
        ActiveWindowModel { app_ids: self.app_ids.insert(ext, app_id), ..self }
    }

    /// A window's state was reported. A window that is activated takes over, and
    /// the one that was activated gives up when it no longer is. The state of any
    /// other window changes nothing, nor does that of one that never appeared.
    pub open spec fn after_state(self, cosmic: u64, states: Seq<u32>) -> Self {
        if self.cosmic_to_ext.dom().contains(cosmic) {
            let ext = self.cosmic_to_ext[cosmic];
            if states.contains(STATE_ACTIVATED) {
                ActiveWindowModel { activated_ext: Some(ext), ..self }
            } else if self.activated_ext == Some(ext) {
                ActiveWindowModel { activated_ext: None, ..self }
            } else {
                self
            }
        } else {
            self
        }
    }

    /// The name of the focused window's application, if it is known.
    pub open spec fn focused(self) -> Option<String> {
        match self.activated_ext {
            Some(ext) => if self.app_ids.dom().contains(ext) {
                Some(self.app_ids[ext])
            } else {
                None
            },
            None => None,
        }
    }
}

impl ActiveWindowState {
    /// Nothing reported yet. `info` says whether the extension is there.
    pub fn new(info: bool) -> (state: Self)
        ensures
            state@ == (ActiveWindowModel {
                info,
                app_ids: Map::empty(),
                cosmic_to_ext: Map::empty(),
                activated_ext: None,
                done: false,
            }),
    {
        ActiveWindowState {
            info,
            app_ids: HashMap::new(),
            cosmic_to_ext: HashMap::new(),
            activated_ext: None,
            done: false,
        }
    }

    /// A window appeared. `cosmic` is the handle that the extension gave it; it
    /// does not count without the extension.
    pub fn on_toplevel(&mut self, ext: u64, cosmic: u64)
        ensures
            final(self)@ == old(self)@.after_toplevel(ext, cosmic),
    {
        if self.info {
            self.cosmic_to_ext.insert(cosmic, ext);
        }
    }

    /// A window's application was named.
    pub fn on_app_id(&mut self, ext: u64, app_id: String)
        ensures
            final(self)@ == old(self)@.after_app_id(ext, app_id),
    {
        self.app_ids.insert(ext, app_id);
    }

    /// Everything that was there at the start has been reported.
    pub fn on_done(&mut self)
        ensures
            final(self)@ == (ActiveWindowModel { done: true, ..old(self)@ }),
    {
        self.done = true;
    }

    /// A window's state was reported, as a packed array of numbers.
    pub fn on_state(&mut self, cosmic: u64, states: &[u8], order: ByteOrder)
        ensures
            final(self)@ == old(self)@.after_state(
                cosmic,
                crate::wire::decoded_u32s(states@, order),
            ),
    {
        let values = decode_u32s(states, order);
        let known: Option<u64> = match self.cosmic_to_ext.get(&cosmic) {
            Some(ext) => Some(*ext),
            None => None,
        };
        if let Some(ext) = known {
            if contains_u32(&values, STATE_ACTIVATED) {
                self.activated_ext = Some(ext);
            } else if self.activated_ext == Some(ext) {
                self.activated_ext = None;
            }
        }
    }
}

/// The name of the focused window's application, or nothing if that cannot be
/// told from what was reported.
pub fn focused_app_id(state: &ActiveWindowState) -> (app_id: Option<String>)
    ensures
        app_id == state@.focused(),
{
    match state.activated_ext {
        Some(ext) => match state.app_ids.get(&ext) {
            Some(app_id) => Some(app_id.clone()),
            None => None,
        },
        None => None,
    }
}

/// What to do after a round trip to the compositor.
#[derive(Clone, Copy, Debug, PartialEq, Eq, Structural)]
pub enum RoundOutcome {
    /// No more round trips.
    Stop,
    /// Pause, and stop after that.
    PauseAndStop,
    /// Pause, and make another round trip.
    PauseAndGoOn,
}

/// What to do after the `round`-th round trip of at most `limit`: a failure, and
/// the end of the reports, stop the waiting at once.
pub fn after_round(round: u32, limit: u32, failed: bool, settled: bool) -> (next: RoundOutcome)
    ensures
        next == if failed || settled {
            RoundOutcome::Stop
        } else if round >= limit {
            RoundOutcome::PauseAndStop
        } else {
            RoundOutcome::PauseAndGoOn
        },
{
    if failed || settled {
        RoundOutcome::Stop
    } else if round >= limit {
        RoundOutcome::PauseAndStop
    } else {
        RoundOutcome::PauseAndGoOn
    }
}

/// Whether a name in lower case holds the name of a terminal emulator.
pub open spec fn names_terminal(lower: Seq<char>) -> bool {
    ||| crate::text::contains_text(lower, "cosmicterm"@)
    ||| crate::text::contains_text(lower, "konsole"@)
    ||| crate::text::contains_text(lower, "alacritty"@)
    ||| crate::text::contains_text(lower, "kitty"@)
    ||| crate::text::contains_text(lower, "foot"@)
    ||| crate::text::contains_text(lower, "wezterm"@)
    ||| crate::text::contains_text(lower, "xterm"@)
    ||| crate::text::contains_text(lower, "terminator"@)
    ||| crate::text::contains_text(lower, "tilix"@)
    ||| crate::text::contains_text(lower, "ptyxis"@)
    ||| crate::text::contains_text(lower, "blackbox"@)
    ||| crate::text::contains_text(lower, "contour"@)
    ||| crate::text::contains_text(lower, "sakura"@)
    ||| crate::text::contains_text(lower, "guake"@)
    ||| crate::text::contains_text(lower, "yakuake"@)
    ||| crate::text::contains_text(lower, "terminal"@)
    ||| crate::text::contains_text(lower, "console"@)
}

/// Whether a name in lower case is that of a terminal emulator.
pub fn is_terminal_name(lower: &str) -> (terminal: bool)
    ensures
        terminal == names_terminal(lower@),
{
    contains(lower, "cosmicterm") || contains(lower, "konsole") || contains(lower, "alacritty")
        || contains(lower, "kitty") || contains(lower, "foot") || contains(lower, "wezterm")
        || contains(lower, "xterm") || contains(lower, "terminator") || contains(lower, "tilix")
        || contains(lower, "ptyxis") || contains(lower, "blackbox") || contains(lower, "contour")
        || contains(lower, "sakura") || contains(lower, "guake") || contains(lower, "yakuake")
        || contains(lower, "terminal") || contains(lower, "console")
}

/// Whether an application is a terminal emulator, whatever the case of its name.
pub fn is_terminal(app_id: &str) -> (terminal: bool)
    ensures
        terminal == names_terminal(crate::text::lowercase(app_id@)),
{
    let lower = to_lowercase(app_id);
    is_terminal_name(lower.as_str())
}

/// Whether the focused window is a terminal, and a paste therefore needs Shift.
/// A window of which nothing is known counts as none.
pub fn focused_window_is_terminal(app_id: Option<&str>) -> (terminal: bool)
    ensures
        terminal <==> (app_id matches Some(name) && names_terminal(crate::text::lowercase(name@))),
{
    match app_id {
        Some(name) => is_terminal(name),
        None => false,
    }
}

/// Once a window that appeared is reported as activated, the focus is its
/// application's, and a report of another window's state without `activated`
/// leaves it there.
pub proof fn law_activated_window_has_focus(
    model: ActiveWindowModel,
    ext: u64,
    cosmic: u64,
    app_id: String,
    states: Seq<u32>,
    other: u64,
    other_states: Seq<u32>,
)
    requires
        model.info,
        states.contains(STATE_ACTIVATED),
        !other_states.contains(STATE_ACTIVATED),
    ensures
        ({
            let focused = model.after_toplevel(ext, cosmic).after_app_id(ext, app_id).after_state(
                cosmic,
                states,
            );
            &&& focused.focused() == Some(app_id)
            &&& !(focused.cosmic_to_ext.dom().contains(other) && focused.cosmic_to_ext[other] == ext)
                ==> focused.after_state(other, other_states).focused() == Some(app_id)
        }),
{
}

/// Once the window that has the focus is reported without `activated`, no window
/// has it.
pub proof fn law_deactivated_window_loses_focus(
    model: ActiveWindowModel,
    cosmic: u64,
    states: Seq<u32>,
)
    requires
        model.cosmic_to_ext.dom().contains(cosmic),
        model.activated_ext == Some(model.cosmic_to_ext[cosmic]),
        !states.contains(STATE_ACTIVATED),
    ensures
        model.after_state(cosmic, states).activated_ext is None,
        model.after_state(cosmic, states).focused() is None,
{
}

/// Whether a name has a word in it, with anything before and behind.
pub open spec fn has_word(name: Seq<char>, word: Seq<char>) -> bool {
    exists|before: Seq<char>, behind: Seq<char>| name == #[trigger] (before + word + behind)
}

proof fn lemma_has_word(name: Seq<char>, word: Seq<char>)
    ensures
        has_word(name, word) <==> crate::text::contains_text(name, word),
{
    if has_word(name, word) {
        let (before, behind) = choose|before: Seq<char>, behind: Seq<char>|
            name == #[trigger] (before + word + behind);
        crate::text::law_contained_text_stands_between(name, word, before, behind);
    }
    crate::text::law_contained_text_stands_between(name, word, seq![], seq![]);
}

/// A name in lower case is that of a terminal exactly if one of these words stands
/// somewhere in it.
pub proof fn law_terminals_are_known_by_word(name: Seq<char>)
    ensures
        names_terminal(name) <==> {
            ||| has_word(name, "cosmicterm"@)
            ||| has_word(name, "konsole"@)
            ||| has_word(name, "alacritty"@)
            ||| has_word(name, "kitty"@)
            ||| has_word(name, "foot"@)
            ||| has_word(name, "wezterm"@)
            ||| has_word(name, "xterm"@)
            ||| has_word(name, "terminator"@)
            ||| has_word(name, "tilix"@)
            ||| has_word(name, "ptyxis"@)
            ||| has_word(name, "blackbox"@)
            ||| has_word(name, "contour"@)
            ||| has_word(name, "sakura"@)
            ||| has_word(name, "guake"@)
            ||| has_word(name, "yakuake"@)
            ||| has_word(name, "terminal"@)
            ||| has_word(name, "console"@)
        },
{
    lemma_has_word(name, "cosmicterm"@);
    lemma_has_word(name, "konsole"@);
    lemma_has_word(name, "alacritty"@);
    lemma_has_word(name, "kitty"@);
    lemma_has_word(name, "foot"@);
    lemma_has_word(name, "wezterm"@);
    lemma_has_word(name, "xterm"@);
    lemma_has_word(name, "terminator"@);
    lemma_has_word(name, "tilix"@);
    lemma_has_word(name, "ptyxis"@);
    lemma_has_word(name, "blackbox"@);
    lemma_has_word(name, "contour"@);
    lemma_has_word(name, "sakura"@);
    lemma_has_word(name, "guake"@);
    lemma_has_word(name, "yakuake"@);
    lemma_has_word(name, "terminal"@);
    lemma_has_word(name, "console"@);
}

/// The state number two marks the focus: a window reported with it has the focus,
/// and the one that had it loses it when it is reported without. A window that
/// never appeared changes nothing.
pub proof fn law_focus_follows_the_reports(
    model: ActiveWindowModel,
    cosmic: u64,
    states: Seq<u32>,
)
    ensures
        ({
            let after = model.after_state(cosmic, states);
            let known = model.cosmic_to_ext.dom().contains(cosmic);
            let ext = model.cosmic_to_ext[cosmic];
            &&& known && states.contains(2u32) ==> after.activated_ext == Some(ext)
            &&& known && !states.contains(2u32) ==> after.activated_ext != Some(ext)
            &&& !(known && (states.contains(2u32) || model.activated_ext == Some(ext)))
                ==> after == model
            &&& after.app_ids == model.app_ids && after.cosmic_to_ext == model.cosmic_to_ext
        }),
{
}

/// An application goes by the name that was given last, whichever window has the
/// focus, and names of other windows do not touch it.
pub proof fn law_last_name_counts(
    model: ActiveWindowModel,
    ext: u64,
    other: u64,
    first: String,
    second: String,
)
    requires
        model.activated_ext == Some(ext),
        other != ext,
    ensures
        model.after_app_id(ext, first).focused() == Some(first),
        model.after_app_id(ext, first).after_app_id(ext, second).focused() == Some(second),
        model.after_app_id(ext, first).after_app_id(other, second).focused() == Some(first),
        model.after_app_id(other, second).focused() == model.focused(),
{
}

/// An extension handle stands for the window that it last came with, and without the
/// extension for none.
pub proof fn law_handles_lead_to_their_window(model: ActiveWindowModel, ext: u64, cosmic: u64)
    ensures
        model.info ==> model.after_toplevel(ext, cosmic).cosmic_to_ext == model.cosmic_to_ext.insert(
            cosmic,
            ext,
        ),
        !model.info ==> model.after_toplevel(ext, cosmic) == model,
        model.after_toplevel(ext, cosmic).app_ids == model.app_ids,
        model.after_toplevel(ext, cosmic).activated_ext == model.activated_ext,
{
}

} // verus!
