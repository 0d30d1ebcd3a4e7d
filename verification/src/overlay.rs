//! The overlay: what key presses, clicks, typing and the backend's answers do
//! to the list and the settings, and what has to happen on the screen and in
//! the backend because of them.
//!
//! A handler never waits for the backend. It asks for something with an
//! [`Effect`], and the answer comes back as an event of its own.

use vstd::prelude::*;
use vstd::string::*;

use crate::config::UserConfig;
use crate::history::{
    ClipboardItemPreview, HistoryListState, HistoryModel, ItemModel, Placeholder, RowChoice,
};

verus! {

/// Something that has to happen outside.
#[derive(Clone, Copy, Debug, PartialEq, Eq, Structural)]
pub enum Effect {
    /// Tell the backend whether the history is to be kept on disk.
    SetPersistence(bool),
    /// Ask the backend to put an item on the clipboard.
    SetClipboard { item_id: u64, instant_paste: bool },
    /// Ask the backend to delete an item.
    DeleteItem(u64),
    /// Ask the backend to pin or unpin an item.
    SetPinned { item_id: u64, pinned: bool },
    /// Ask the backend to forget everything.
    ClearHistory,
    /// Write the settings to the configuration file.
    SaveConfig,
    /// Show the list's items, or this placeholder.
    Rebuild(Placeholder),
    /// Select a row.
    Select(RowChoice),
    /// Select the first row.
    SelectFirst { focus: bool },
    /// Select the row below the selected one.
    SelectNext { wrap: bool },
    /// Select the row above the selected one.
    SelectPrevious { wrap: bool },
    /// Select the row of an item.
    SelectItem(u64),
    /// Activate the selected row.
    ActivateSelected,
    /// Give the list the keyboard focus.
    FocusList,
    /// Give the search field the keyboard focus.
    FocusSearch,
    /// Show or hide the search field.
    ShowSearch(bool),
    /// Select all of the text in the search field.
    SelectSearchText,
    /// Delete the text in the search field up to a position.
    DeleteSearchText(i32),
    /// Show or hide the menu.
    ShowMenu(bool),
    /// Show or hide the delete buttons.
    ShowDeleteButtons(bool),
    /// Show or hide the pin buttons.
    ShowPinIcons(bool),
    /// Close the overlay.
    Quit,
}

/// Whether an event goes on to whoever else listens for it.
#[derive(Clone, Copy, Debug, PartialEq, Eq, Structural)]
pub enum Propagation {
    Stop,
    Proceed,
}

/// The keys that mean something. Of a letter it does not matter which case it
/// is in.
#[derive(Clone, Copy, Debug, PartialEq, Eq, Structural)]
pub enum Key {
    Escape,
    Slash,
    J,
    K,
    P,
    U,
    Down,
    Up,
    /// Either of the two keys.
    Enter,
    Delete,
    Other,
}

/// What a key press depends on besides the key.
#[derive(Clone, Copy, Debug, PartialEq, Eq, Structural)]
pub struct KeyContext {
    /// Whether the search field is to be seen.
    pub search_revealed: bool,
    /// Whether the search field has the keyboard focus.
    pub search_focused: bool,
    /// The index of the selected row.
    pub selected: Option<i32>,
}

/// What a key press leads to.
pub struct Reaction {
    pub effects: Vec<Effect>,
    pub propagation: Propagation,
}

/// The overlay.
pub struct Overlay {
    pub history: HistoryListState,
    pub config: UserConfig,
}

/// The overlay, as mathematical values.
#[verifier::ext_equal]
pub struct OverlayModel {
    pub history: HistoryModel,
    pub config: UserConfig,
}

impl View for Overlay {
    type V = OverlayModel;

    open spec fn view(&self) -> OverlayModel {
        OverlayModel { history: self.history@, config: self.config }
    }
}

/// A reaction that does nothing and lets the event pass.
pub open spec fn pass_on() -> (Seq<Effect>, Propagation) {
    (seq![], Propagation::Proceed)
}

/// A reaction that has these effects and keeps the event.
pub open spec fn handled(effects: Seq<Effect>) -> (Seq<Effect>, Propagation) {
    (effects, Propagation::Stop)
}

impl Reaction {
    /// The reaction, as mathematical values.
    pub open spec fn parts(self) -> (Seq<Effect>, Propagation) {
        (self.effects@, self.propagation)
    }
}

impl OverlayModel {
    /// The settings that the list depends on are those of the configuration, and
    /// what is shown is what matches the search.
    pub open spec fn in_step(self) -> bool {
        &&& self.history.show_trash == self.config.show_trash
        &&& self.history.show_pin == self.config.show_pin
        &&& self.history.items == self.history.rebuilt().items
    }

    /// The effect of showing the list anew.
    pub open spec fn rebuild_effect(self) -> Effect {
        Effect::Rebuild(self.history.placeholder())
    }

    /// What leaving the search field does: the list gets the focus, and with it
    /// its first row if none is selected.
    pub open spec fn back_to_list(selected: Option<i32>) -> Seq<Effect> {
        if selected is None {
            seq![Effect::SelectFirst { focus: true }]
        } else {
            seq![Effect::FocusList]
        }
    }

    /// What a request to pin or unpin an item asks of the backend.
    pub open spec fn pin_request(self, item_id: u64) -> Seq<Effect> {
        match self.history.next_pinned(item_id) {
            Some(pinned) => seq![Effect::SetPinned { item_id, pinned }],
            None => seq![],
        }
    }

    /// What a key press leads to.
    pub open spec fn key_reaction(self, key: Key, context: KeyContext) -> (
        Seq<Effect>,
        Propagation,
    ) {
        match key {
            Key::Escape => if context.search_revealed && context.search_focused {
                handled(Self::back_to_list(context.selected))
            } else {
                handled(seq![Effect::Quit])
            },
            Key::Slash => if context.search_focused {
                pass_on()
            } else {
                handled(seq![Effect::ShowSearch(true), Effect::FocusSearch])
            },
            Key::J => if context.search_focused {
                pass_on()
            } else {
                handled(seq![Effect::SelectNext { wrap: false }])
            },
            Key::Down => if context.search_focused {
                handled(seq![Effect::FocusList, Effect::SelectNext { wrap: false }])
            } else {
                handled(seq![Effect::SelectNext { wrap: false }])
            },
            Key::K => if context.search_focused {
                pass_on()
            } else {
                handled(seq![Effect::SelectPrevious { wrap: false }])
            },
            Key::Up => if context.search_focused {
                handled(seq![Effect::FocusList, Effect::SelectPrevious { wrap: false }])
            } else {
                handled(seq![Effect::SelectPrevious { wrap: false }])
            },
            Key::Enter => if context.selected is Some {
                handled(seq![Effect::ActivateSelected])
            } else {
                pass_on()
            },
            Key::Delete => if context.search_focused {
                pass_on()
            } else {
                match context.selected {
                    Some(index) => match self.history.item_of_row(index) {
                        Some(item_id) => handled(seq![Effect::DeleteItem(item_id)]),
                        None => handled(seq![]),
                    },
                    None => pass_on(),
                }
            },
            Key::P => if context.search_focused {
                pass_on()
            } else {
                match context.selected {
                    Some(index) => match self.history.item_of_row(index) {
                        Some(item_id) => handled(self.pin_request(item_id)),
                        None => handled(seq![]),
                    },
                    None => pass_on(),
                }
            },
            Key::U | Key::Other => pass_on(),
        }
    }

    /// What a key press in the search field leads to. `control` says whether the
    /// Control key is down, `position` is where the text cursor is.
    pub open spec fn search_key_reaction(
        self,
        key: Key,
        control: bool,
        position: i32,
        selected: Option<i32>,
    ) -> (Seq<Effect>, Propagation) {
        match key {
            Key::U => if control && position > 0 {
                handled(seq![Effect::DeleteSearchText(position)])
            } else {
                pass_on()
            },
            Key::Down => match self.history.next_row(selected, true) {
                Some(choice) => handled(seq![Effect::Select(choice)]),
                None => pass_on(),
            },
            Key::Up => match self.history.previous_row(selected, true) {
                Some(choice) => handled(seq![Effect::Select(choice)]),
                None => pass_on(),
            },
            _ => pass_on(),
        }
    }

    /// What the activation of a row asks of the backend.
    pub open spec fn activation(self, index: i32) -> Seq<Effect> {
        match self.history.item_of_row(index) {
            Some(item_id) => seq![
                Effect::SetClipboard { item_id, instant_paste: self.config.instant_paste },
            ],
            None => seq![],
        }
    }

    /// The overlay after the backend answered a request to delete an item.
    pub open spec fn after_delete_answer(self, item_id: u64, done: bool) -> Self {
        if done {
            OverlayModel { history: self.history.after_delete(item_id).rebuilt(), ..self }
        } else {
            self
        }
    }

    /// The overlay after the backend answered a request to pin or unpin an item.
    pub open spec fn after_pin_answer(self, item_id: u64, pinned: bool, done: bool) -> Self {
        if done {
            OverlayModel { history: self.history.after_pinned(item_id, pinned).rebuilt(), ..self }
        } else {
            self
        }
    }

    /// The overlay after something else was typed into the search field.
    pub open spec fn after_search(self, query: Seq<char>) -> Self {
        OverlayModel {
            history: HistoryModel { search_query: query, ..self.history }.rebuilt(),
            ..self
        }
    }

    /// The overlay after the delete buttons were switched on or off.
    pub open spec fn after_trash_toggle(self, on: bool) -> Self {
        OverlayModel {
            history: HistoryModel { show_trash: on, ..self.history },
            config: UserConfig { show_trash: on, ..self.config },
        }
    }

    /// The overlay after the pin buttons were switched on or off.
    pub open spec fn after_pin_toggle(self, on: bool) -> Self {
        OverlayModel {
            history: HistoryModel { show_pin: on, ..self.history },
            config: UserConfig { show_pin: on, ..self.config },
        }
    }

    /// The overlay after the history on disk was switched on or off.
    pub open spec fn after_persistence_toggle(self, on: bool) -> Self {
        OverlayModel { config: UserConfig { persistence_enabled: on, ..self.config }, ..self }
    }

    /// The overlay after instant pasting was switched on or off.
    pub open spec fn after_instant_paste_toggle(self, on: bool) -> Self {
        OverlayModel { config: UserConfig { instant_paste: on, ..self.config }, ..self }
    }
}

/// Which row an effect selects in a list, if it selects one. `selected` is the
/// row that is selected when the effect takes place.
pub open spec fn chosen_row(history: HistoryModel, effect: Effect, selected: Option<i32>) -> Option<
    RowChoice,
> {
    match effect {
        Effect::Select(choice) => Some(choice),
        Effect::SelectFirst { focus } => history.first_row(focus),
        Effect::SelectNext { wrap } => history.next_row(selected, wrap),
        Effect::SelectPrevious { wrap } => history.previous_row(selected, wrap),
        Effect::SelectItem(item_id) => history.row_of_item(item_id),
        _ => None,
    }
}

/// Whether the history has to be fetched on demand: only if nothing was fetched
/// beforehand.
pub fn wants_history(prefetched: &Vec<ClipboardItemPreview>) -> (b: bool)
    ensures
        b == (prefetched@.len() == 0),
{
    prefetched.len() == 0
}

/// The history to show: what was fetched beforehand, or, if that is empty, what
/// a fetch on demand brought.
pub fn choose_history(
    prefetched: Vec<ClipboardItemPreview>,
    on_demand: Option<Vec<ClipboardItemPreview>>,
) -> (items: Vec<ClipboardItemPreview>)
    ensures
        items == match on_demand {
            Some(fetched) => if prefetched@.len() == 0 {
                fetched
            } else {
                prefetched
            },
            None => prefetched,
        },
{
    if prefetched.len() > 0 {
        return prefetched;
    }
    match on_demand {
        Some(fetched) => fetched,
        None => prefetched,
    }
}

impl Overlay {
    /// What happens before the history is fetched: the backend learns whether it
    /// is to be kept, since that decides what there is to fetch.
    pub fn announce(config: UserConfig) -> (effects: Vec<Effect>)
        ensures
            effects@ == seq![Effect::SetPersistence(config.persistence_enabled)],
    {
        let mut effects: Vec<Effect> = Vec::new();
        effects.push(Effect::SetPersistence(config.persistence_enabled));
        effects
    }

    /// Opens the overlay over a history. The list is shown, its first row is
    /// selected, and its buttons are switched as the settings say.
    pub fn open(config: UserConfig, items: Vec<ClipboardItemPreview>) -> (r: (Self, Vec<Effect>))
        ensures
            r.0@.config == config,
            r.0@.history == (HistoryModel {
                items: seq![],
                all_items: crate::history::item_models(items@),
                search_query: seq![],
                show_trash: config.show_trash,
                show_pin: config.show_pin,
            }).rebuilt(),
            r.0@.history.items == r.0@.history.all_items,
            r.0@.in_step(),
            r.1@ == seq![
                r.0@.rebuild_effect(),
                Effect::SelectFirst { focus: true },
                Effect::ShowDeleteButtons(config.show_trash),
                Effect::ShowPinIcons(config.show_pin),
            ],
            r.1@[0] == Effect::Rebuild(
                if items@.len() == 0 {
                    Placeholder::NoHistory
                } else {
                    Placeholder::NotNeeded
                },
            ),
    {
        let mut history = HistoryListState::new(items, config.show_trash, config.show_pin);
        let placeholder = history.rebuild_list();
        let mut effects: Vec<Effect> = Vec::new();
        effects.push(Effect::Rebuild(placeholder));
        effects.push(Effect::SelectFirst { focus: true });
        effects.push(Effect::ShowDeleteButtons(config.show_trash));
        effects.push(Effect::ShowPinIcons(config.show_pin));
        (Overlay { history, config }, effects)
    }

    /// Which row an effect selects, if it selects one.
    pub fn row_choice(&self, effect: Effect, selected: Option<i32>) -> (choice: Option<RowChoice>)
        ensures
            choice == chosen_row(self@.history, effect, selected),
    {
        match effect {
            Effect::Select(choice) => Some(choice),
            Effect::SelectFirst { focus } => self.history.select_first_row_with_focus(focus),
            Effect::SelectNext { wrap } => self.history.select_next_row(selected, wrap),
            Effect::SelectPrevious { wrap } => self.history.select_previous_row(selected, wrap),
            Effect::SelectItem(item_id) => self.history.select_row_by_item_id(item_id),
            _ => None,
        }
    }

    fn leave_search(selected: Option<i32>) -> (effects: Vec<Effect>)
        ensures
            effects@ == OverlayModel::back_to_list(selected),
    {
        let mut effects: Vec<Effect> = Vec::new();
        if selected.is_none() {
            effects.push(Effect::SelectFirst { focus: true });
        } else {
            effects.push(Effect::FocusList);
        }
        effects
    }

    /// The pin button of an item was pressed.
    pub fn on_pin_clicked(&self, item_id: u64) -> (effects: Vec<Effect>)
        ensures
            effects@ == self@.pin_request(item_id),
    {
        let mut effects: Vec<Effect> = Vec::new();
        if let Some(pinned) = self.history.next_pinned_state(item_id) {
            effects.push(Effect::SetPinned { item_id, pinned });
        }
        effects
    }

    /// The delete button of an item was pressed.
    pub fn on_delete_clicked(&self, item_id: u64) -> (effects: Vec<Effect>)
        ensures
            effects@ == seq![Effect::DeleteItem(item_id)],
    {
        let mut effects: Vec<Effect> = Vec::new();
        effects.push(Effect::DeleteItem(item_id));
        effects
    }

    /// A key was pressed.
    pub fn on_key(&self, key: Key, context: KeyContext) -> (reaction: Reaction)
        ensures
            reaction.parts() == self@.key_reaction(key, context),
            key == Key::Delete && !context.search_focused && (context.selected matches Some(i) && 0
                <= i < self@.history.items.len()) ==> reaction.effects@ == seq![
                Effect::DeleteItem(self@.history.items[context.selected->0 as int].item_id),
            ],
            key == Key::P && !context.search_focused && (context.selected matches Some(i) && 0 <= i
                < self@.history.items.len()) ==> forall|e: int|
                0 <= e < reaction.effects@.len() ==> ((
                #[trigger] reaction.effects@[e]) matches Effect::SetPinned { item_id, .. } && item_id
                    == self@.history.items[context.selected->0 as int].item_id),
    {
        let mut effects: Vec<Effect> = Vec::new();
        let mut propagation = Propagation::Stop;
        match key {
            Key::Escape => if context.search_revealed && context.search_focused {
                effects = Self::leave_search(context.selected);
            } else {
                effects.push(Effect::Quit);
            },
            Key::Slash => if context.search_focused {
                propagation = Propagation::Proceed;
            } else {
                effects.push(Effect::ShowSearch(true));
                effects.push(Effect::FocusSearch);
            },
            Key::J => if context.search_focused {
                propagation = Propagation::Proceed;
            } else {
                effects.push(Effect::SelectNext { wrap: false });
            },
            Key::Down => {
                if context.search_focused {
                    effects.push(Effect::FocusList);
                }
                effects.push(Effect::SelectNext { wrap: false });
            },
            Key::K => if context.search_focused {
                propagation = Propagation::Proceed;
            } else {
                effects.push(Effect::SelectPrevious { wrap: false });
            },
            Key::Up => {
                if context.search_focused {
                    effects.push(Effect::FocusList);
                }
                effects.push(Effect::SelectPrevious { wrap: false });
            },
            Key::Enter => if context.selected.is_some() {
                effects.push(Effect::ActivateSelected);
            } else {
                propagation = Propagation::Proceed;
            },
            Key::Delete => if context.search_focused {
                propagation = Propagation::Proceed;
            } else {
                match context.selected {
                    Some(index) => {
                        if let Some(item_id) = self.history.item_at_row(index) {
                            effects.push(Effect::DeleteItem(item_id));
                        }
                    },
                    None => {
                        propagation = Propagation::Proceed;
                    },
                }
            },
            Key::P => if context.search_focused {
                propagation = Propagation::Proceed;
            } else {
                match context.selected {
                    Some(index) => {
                        if let Some(item_id) = self.history.item_at_row(index) {
                            effects = self.on_pin_clicked(item_id);
                        }
                    },
                    None => {
                        propagation = Propagation::Proceed;
                    },
                }
            },
            Key::U | Key::Other => {
                propagation = Propagation::Proceed;
            },
        }
        let reaction = Reaction { effects, propagation };
        assert(reaction.parts().0 =~= self@.key_reaction(key, context).0);
        reaction
    }

    /// A key was pressed in the search field.
    pub fn on_search_key(
        &self,
        key: Key,
        control: bool,
        position: i32,
        selected: Option<i32>,
    ) -> (reaction: Reaction)
        ensures
            reaction.parts() == self@.search_key_reaction(key, control, position, selected),
    {
        let mut effects: Vec<Effect> = Vec::new();
        let mut propagation = Propagation::Proceed;
        match key {
            Key::U => if control && position > 0 {
                effects.push(Effect::DeleteSearchText(position));
                propagation = Propagation::Stop;
            },
            Key::Down => {
                if let Some(choice) = self.history.select_next_row(selected, true) {
                    effects.push(Effect::Select(choice));
                    propagation = Propagation::Stop;
                }
            },
            Key::Up => {
                if let Some(choice) = self.history.select_previous_row(selected, true) {
                    effects.push(Effect::Select(choice));
                    propagation = Propagation::Stop;
                }
            },
            _ => {},
        }
        let reaction = Reaction { effects, propagation };
        assert(reaction.parts().0 =~= self@.search_key_reaction(
            key,
            control,
            position,
            selected,
        ).0);
        reaction
    }

    /// A row was activated: its item goes on the clipboard.
    pub fn on_row_activated(&self, index: i32) -> (effects: Vec<Effect>)
        ensures
            effects@ == self@.activation(index),
            0 <= index < self@.history.items.len() ==> effects@ == seq![
                Effect::SetClipboard {
                    item_id: self@.history.items[index as int].item_id,
                    instant_paste: self@.config.instant_paste,
                },
            ],
            !(0 <= index < self@.history.items.len()) ==> effects@ == Seq::<Effect>::empty(),
    {
        let mut effects: Vec<Effect> = Vec::new();
        if let Some(item_id) = self.history.item_at_row(index) {
            effects.push(
                Effect::SetClipboard { item_id, instant_paste: self.config.instant_paste },
            );
        }
        effects
    }

    /// The backend answered a request that closes the overlay once it is done:
    /// to put an item on the clipboard, or to forget everything.
    pub fn on_closing_answer(&self, done: bool) -> (effects: Vec<Effect>)
        ensures
            effects@ == if done {
                seq![Effect::Quit]
            } else {
                seq![]
            },
    {
        let mut effects: Vec<Effect> = Vec::new();
        if done {
            effects.push(Effect::Quit);
        }
        effects
    }

    /// The backend answered a request to delete an item. A refusal changes
    /// nothing.
    pub fn on_delete_answer(&mut self, item_id: u64, done: bool) -> (effects: Vec<Effect>)
        ensures
            final(self)@ == old(self)@.after_delete_answer(item_id, done),
            effects@ == if done {
                seq![final(self)@.rebuild_effect(), Effect::SelectFirst { focus: true }]
            } else {
                seq![]
            },
            done && crate::text::trimmed(old(self)@.history.search_query).len() == 0
                ==> final(self)@.history.items == final(self)@.history.all_items,
            done ==> (effects@[0] == Effect::Rebuild(Placeholder::NoMatches)
                <==> final(self)@.history.items.len() == 0 && crate::text::trimmed(
                old(self)@.history.search_query,
            ).len() > 0),
    {
        let mut effects: Vec<Effect> = Vec::new();
        if done {
            self.history.delete_item(item_id);
            let placeholder = self.history.rebuild_list();
            effects.push(Effect::Rebuild(placeholder));
            effects.push(Effect::SelectFirst { focus: true });
        }
        effects
    }

    /// The backend answered a request to pin or unpin an item. A refusal changes
    /// nothing.
    pub fn on_pin_answer(&mut self, item_id: u64, pinned: bool, done: bool) -> (effects: Vec<
        Effect,
    >)
        ensures
            final(self)@ == old(self)@.after_pin_answer(item_id, pinned, done),
            effects@ == if done {
                seq![final(self)@.rebuild_effect(), Effect::SelectItem(item_id)]
            } else {
                seq![]
            },
            done && crate::text::trimmed(old(self)@.history.search_query).len() == 0
                ==> final(self)@.history.items == final(self)@.history.all_items,
            done ==> (effects@[0] == Effect::Rebuild(Placeholder::NoMatches)
                <==> final(self)@.history.items.len() == 0 && crate::text::trimmed(
                old(self)@.history.search_query,
            ).len() > 0),
    {
        let mut effects: Vec<Effect> = Vec::new();
        if done {
            self.history.apply_pinned_state(item_id, pinned);
            let placeholder = self.history.rebuild_list();
            effects.push(Effect::Rebuild(placeholder));
            effects.push(Effect::SelectItem(item_id));
        }
        effects
    }

    /// Something else was typed into the search field.
    pub fn on_search_changed(&mut self, query: String) -> (effects: Vec<Effect>)
        ensures
            final(self)@ == old(self)@.after_search(query@),
            effects@ == seq![final(self)@.rebuild_effect(), Effect::SelectFirst { focus: false }],
            crate::text::trimmed(query@).len() == 0
                ==> final(self)@.history.items == final(self)@.history.all_items,
            effects@[0] == Effect::Rebuild(Placeholder::NoMatches)
                <==> final(self)@.history.items.len() == 0 && crate::text::trimmed(query@).len()
                > 0,
    {
        self.history.search_query = query;
        let placeholder = self.history.rebuild_list();
        let mut effects: Vec<Effect> = Vec::new();
        effects.push(Effect::Rebuild(placeholder));
        effects.push(Effect::SelectFirst { focus: false });
        effects
    }

    /// Enter was pressed in the search field.
    pub fn on_search_activate(selected: Option<i32>) -> (effects: Vec<Effect>)
        ensures
            effects@ == if selected is Some {
                seq![Effect::ActivateSelected]
            } else {
                seq![]
            },
    {
        let mut effects: Vec<Effect> = Vec::new();
        if selected.is_some() {
            effects.push(Effect::ActivateSelected);
        }
        effects
    }

    /// The search was given up.
    pub fn on_stop_search(selected: Option<i32>) -> (effects: Vec<Effect>)
        ensures
            effects@ == OverlayModel::back_to_list(selected),
    {
        Self::leave_search(selected)
    }

    /// The search button was pressed: the search field appears, ready to be
    /// typed into, or disappears.
    pub fn on_search_button(revealed: bool) -> (effects: Vec<Effect>)
        ensures
            effects@ == if revealed {
                seq![Effect::ShowSearch(false)]
            } else {
                seq![Effect::ShowSearch(true), Effect::FocusSearch, Effect::SelectSearchText]
            },
    {
        let mut effects: Vec<Effect> = Vec::new();
        effects.push(Effect::ShowSearch(!revealed));
        if !revealed {
            effects.push(Effect::FocusSearch);
            effects.push(Effect::SelectSearchText);
        }
        effects
    }

    /// The menu button was pressed.
    pub fn on_menu_button(revealed: bool) -> (effects: Vec<Effect>)
        ensures
            effects@ == seq![Effect::ShowMenu(!revealed)],
    {
        let mut effects: Vec<Effect> = Vec::new();
        effects.push(Effect::ShowMenu(!revealed));
        effects
    }

    /// The button that clears the history was pressed.
    pub fn on_clear_button() -> (effects: Vec<Effect>)
        ensures
            effects@ == seq![Effect::ClearHistory],
    {
        let mut effects: Vec<Effect> = Vec::new();
        effects.push(Effect::ClearHistory);
        effects
    }

    /// The close button was pressed, or the window is to be closed.
    pub fn on_close() -> (effects: Vec<Effect>)
        ensures
            effects@ == seq![Effect::Quit],
    {
        let mut effects: Vec<Effect> = Vec::new();
        effects.push(Effect::Quit);
        effects
    }

    /// The delete buttons were switched on or off.
    pub fn on_toggle_trash(&mut self, on: bool) -> (effects: Vec<Effect>)
        ensures
            final(self)@ == old(self)@.after_trash_toggle(on),
            effects@ == seq![Effect::SaveConfig, Effect::ShowDeleteButtons(on)],
    {
        self.config.show_trash = on;
        self.history.show_trash = on;
        let mut effects: Vec<Effect> = Vec::new();
        effects.push(Effect::SaveConfig);
        effects.push(Effect::ShowDeleteButtons(on));
        effects
    }

    /// The pin buttons were switched on or off.
    pub fn on_toggle_pin(&mut self, on: bool) -> (effects: Vec<Effect>)
        ensures
            final(self)@ == old(self)@.after_pin_toggle(on),
            effects@ == seq![Effect::SaveConfig, Effect::ShowPinIcons(on)],
    {
        self.config.show_pin = on;
        self.history.show_pin = on;
        let mut effects: Vec<Effect> = Vec::new();
        effects.push(Effect::SaveConfig);
        effects.push(Effect::ShowPinIcons(on));
        effects
    }

    /// The history on disk was switched on or off.
    pub fn on_toggle_persistence(&mut self, on: bool) -> (effects: Vec<Effect>)
        ensures
            final(self)@ == old(self)@.after_persistence_toggle(on),
            effects@ == seq![Effect::SaveConfig, Effect::SetPersistence(on)],
    {
        self.config.persistence_enabled = on;
        let mut effects: Vec<Effect> = Vec::new();
        effects.push(Effect::SaveConfig);
        effects.push(Effect::SetPersistence(on));
        effects
    }

    /// Instant pasting was switched on or off.
    pub fn on_toggle_instant_paste(&mut self, on: bool) -> (effects: Vec<Effect>)
        ensures
            final(self)@ == old(self)@.after_instant_paste_toggle(on),
            effects@ == seq![Effect::SaveConfig],
    {
        self.config.instant_paste = on;
        let mut effects: Vec<Effect> = Vec::new();
        effects.push(Effect::SaveConfig);
        effects
    }
}

/// Whatever happens, the list shows what matches the search, and its buttons are
/// switched as the settings say.
pub proof fn law_overlay_stays_in_step(
    model: OverlayModel,
    item_id: u64,
    pinned: bool,
    done: bool,
    query: Seq<char>,
    on: bool,
)
    requires
        model.in_step(),
    ensures
        model.after_delete_answer(item_id, done).in_step(),
        model.after_pin_answer(item_id, pinned, done).in_step(),
        model.after_search(query).in_step(),
        model.after_trash_toggle(on).in_step(),
        model.after_pin_toggle(on).in_step(),
        model.after_persistence_toggle(on).in_step(),
        model.after_instant_paste_toggle(on).in_step(),
{
}

/// While the search field has the focus, keys that type something are left to
/// it and have no other effect.
pub proof fn law_typing_reaches_search(model: OverlayModel, key: Key, context: KeyContext)
    requires
        context.search_focused,
        key == Key::Slash || key == Key::J || key == Key::K || key == Key::P || key == Key::U || key
            == Key::Delete || key == Key::Other,
    ensures
        model.key_reaction(key, context) == pass_on(),
{
}

/// An item that was pinned or unpinned and matches the search is selected in the
/// list again, at its new place.
pub proof fn law_pinned_item_is_selected(model: OverlayModel, item_id: u64, pinned: bool)
    requires
        crate::history::distinct_ids(model.history.all_items),
        model.history.next_pinned(item_id) is Some,
        model.history.all_items[crate::history::place_of(
            model.history.all_items,
            item_id,
        )].matches(crate::history::effective_query(model.history.search_query)),
    ensures
        ({
            let history = model.after_pin_answer(item_id, pinned, true).history;
            let place = crate::history::place_of(history.items, item_id);
            &&& place < history.items.len()
            &&& history.items[place].item_id == item_id
            &&& history.items[place].pinned == pinned
            &&& chosen_row(history, Effect::SelectItem(item_id), None) == Some(
                RowChoice { index: place as usize, focus: true },
            )
        }),
{
    let before = model.history;
    let history = model.after_pin_answer(item_id, pinned, true).history;
    let moved = before.after_pinned(item_id, pinned);
    crate::history::law_pinning_toggles(before, item_id, pinned);
    crate::history::law_ids_stay_distinct(before.all_items, item_id, pinned);
    crate::history::law_pinning_changes_one_item(before.all_items, item_id, pinned);
    crate::history::law_shown_items_match(moved);
    crate::history::lemma_place(before.all_items, item_id);
    crate::history::lemma_place(moved.all_items, item_id);
    crate::history::lemma_place(history.items, item_id);
    let old_place = crate::history::place_of(before.all_items, item_id);
    let item = ItemModel { pinned, ..before.all_items[old_place] };
    assert(moved.all_items.contains(item)) by {
        broadcast use vstd::seq_lib::group_to_multiset_ensures;

        assert(moved.all_items.to_multiset().count(item) > 0);
    }
    let at = choose|at: int| 0 <= at < moved.all_items.len() && moved.all_items[at] == item;
    assert(moved.all_items[at].matches(
        crate::history::effective_query(moved.search_query),
    ));
    assert(history.items.contains(item));
    let k = choose|k: int| 0 <= k < history.items.len() && history.items[k] == item;
    let place = crate::history::place_of(history.items, item_id);
    assert(place <= k);
    assert(moved.all_items.contains(history.items[place]));
    let m = choose|m: int|
        0 <= m < moved.all_items.len() && moved.all_items[m] == history.items[place];
    assert(m == at) by {
        assert(moved.all_items[m].item_id == moved.all_items[at].item_id);
    }
}

/// What is done to a row is done to the item that the row shows, whatever the
/// search: activation puts it on the clipboard, and Delete deletes it.
pub proof fn law_rows_act_on_what_they_show(model: OverlayModel, index: i32, context: KeyContext)
    requires
        0 <= index < model.history.items.len(),
        context.selected == Some(index),
        !context.search_focused,
    ensures
        model.activation(index) == seq![
            Effect::SetClipboard {
                item_id: model.history.items[index as int].item_id,
                instant_paste: model.config.instant_paste,
            },
        ],
        model.key_reaction(Key::Delete, context) == (
            seq![Effect::DeleteItem(model.history.items[index as int].item_id)],
            Propagation::Stop,
        ),
        model.key_reaction(Key::Enter, context) == (
            seq![Effect::ActivateSelected],
            Propagation::Stop,
        ),
{
    let item = model.history.items[index as int];
    crate::history::law_rows_are_those_of_the_shown_items(model.history, index, item.item_id);
}

/// P pins the item that the selected row shows if it is unpinned in the history, and
/// unpins it if it is pinned. `at` is where the history has it.
pub proof fn law_p_pins_what_the_row_shows(
    model: OverlayModel,
    index: i32,
    context: KeyContext,
    at: int,
)
    requires
        0 <= index < model.history.items.len(),
        context.selected == Some(index),
        !context.search_focused,
        0 <= at < model.history.all_items.len(),
        model.history.all_items[at].item_id == model.history.items[index as int].item_id,
        forall|j: int|
            0 <= j < at ==> (#[trigger] model.history.all_items[j]).item_id
                != model.history.items[index as int].item_id,
    ensures
        model.key_reaction(Key::P, context) == (
            seq![
                Effect::SetPinned {
                    item_id: model.history.items[index as int].item_id,
                    pinned: !model.history.all_items[at].pinned,
                },
            ],
            Propagation::Stop,
        ),
{
    let item = model.history.items[index as int];
    assert(crate::history::is_first_of(model.history.all_items, at, item.item_id));
    crate::history::law_pinned_item_goes_to_the_front(model.history, item.item_id, at);
    crate::history::law_rows_are_those_of_the_shown_items(model.history, index, item.item_id);
}

/// In a history whose items have numbers of their own, P turns round just what the
/// row shows.
pub proof fn law_p_turns_the_pin_round(model: OverlayModel, index: i32, context: KeyContext)
    requires
        0 <= index < model.history.items.len(),
        context.selected == Some(index),
        !context.search_focused,
        crate::history::distinct_ids(model.history.all_items),
        model.history.all_items.contains(model.history.items[index as int]),
    ensures
        model.key_reaction(Key::P, context) == (
            seq![
                Effect::SetPinned {
                    item_id: model.history.items[index as int].item_id,
                    pinned: !model.history.items[index as int].pinned,
                },
            ],
            Propagation::Stop,
        ),
{
    let item = model.history.items[index as int];
    let all = model.history.all_items;
    let at = all.index_of(item);
    assert forall|j: int| 0 <= j < at implies (#[trigger] all[j]).item_id != item.item_id by {
        assert(all[j].item_id != all[at].item_id);
    }
    law_p_pins_what_the_row_shows(model, index, context, at);
}

/// An item is among the history as long as it is shown, so that what is done to
/// its row reaches it.
pub proof fn law_shown_items_are_in_the_history(model: OverlayModel, index: int)
    requires
        model.in_step(),
        0 <= index < model.history.items.len(),
    ensures
        model.history.all_items.contains(model.history.items[index]),
{
    crate::history::law_shown_items_match(model.history);
    assert(model.history.items[index] == model.history.rebuilt().items[index]);
}

/// A row that shows no item does nothing: no request is made for it.
pub proof fn law_rows_without_items_do_nothing(
    model: OverlayModel,
    index: i32,
    context: KeyContext,
)
    requires
        !(0 <= index < model.history.items.len()),
        context.selected == Some(index),
        !context.search_focused,
    ensures
        model.activation(index).len() == 0,
        model.key_reaction(Key::Delete, context).0.len() == 0,
        model.key_reaction(Key::P, context).0.len() == 0,
{
}

/// J and Down go one row down from a row in the list, K and Up one row up, and
/// neither leaves the list at its ends.
pub proof fn law_keys_move_the_selection(model: OverlayModel, current: i32, context: KeyContext)
    requires
        0 <= current < model.history.items.len(),
        !context.search_focused,
    ensures
        ({
            let down = model.key_reaction(Key::Down, context);
            let up = model.key_reaction(Key::Up, context);
            &&& model.key_reaction(Key::J, context) == down
            &&& model.key_reaction(Key::K, context) == up
            &&& down.1 == Propagation::Stop
            &&& up.1 == Propagation::Stop
            &&& down.0.len() == 1
            &&& up.0.len() == 1
            &&& chosen_row(model.history, down.0[0], Some(current)) == (if current + 1
                < model.history.items.len() {
                Some(RowChoice { index: (current + 1) as usize, focus: true })
            } else {
                None
            })
            &&& chosen_row(model.history, up.0[0], Some(current)) == (if current > 0 {
                Some(RowChoice { index: (current - 1) as usize, focus: true })
            } else {
                None
            })
        }),
{
    crate::history::law_selection_moves_by_one(model.history, current, false);
}

/// In the search field Down and Up move the selection as well, and from its ends
/// to the first row.
pub proof fn law_search_keys_move_the_selection(
    model: OverlayModel,
    current: i32,
    control: bool,
    position: i32,
)
    requires
        0 <= current < model.history.items.len(),
    ensures
        model.search_key_reaction(Key::Down, control, position, Some(current)) == (
            seq![
                Effect::Select(
                    RowChoice {
                        index: (if current + 1 < model.history.items.len() {
                            current + 1
                        } else {
                            0
                        }) as usize,
                        focus: true,
                    },
                ),
            ],
            Propagation::Stop,
        ),
        model.search_key_reaction(Key::Up, control, position, Some(current)) == (
            seq![
                Effect::Select(
                    RowChoice {
                        index: (if current > 0 {
                            current - 1
                        } else {
                            0
                        }) as usize,
                        focus: true,
                    },
                ),
            ],
            Propagation::Stop,
        ),
        position > 0 ==> model.search_key_reaction(Key::U, true, position, Some(current)) == (
            seq![Effect::DeleteSearchText(position)],
            Propagation::Stop,
        ),
{
    crate::history::law_selection_moves_by_one(model.history, current, true);
}

/// Escape closes the overlay, except from the search field, where it only leads
/// back to the list.
pub proof fn law_escape_closes_from_the_list(model: OverlayModel, context: KeyContext)
    ensures
        ({
            let reaction = model.key_reaction(Key::Escape, context);
            &&& reaction.1 == Propagation::Stop
            &&& reaction.0.len() == 1
            &&& reaction.0[0] == Effect::Quit <==> !(context.search_revealed
                && context.search_focused)
            &&& context.search_revealed && context.search_focused ==> reaction.0[0]
                == Effect::FocusList || reaction.0[0] == (Effect::SelectFirst { focus: true })
        }),
{
}

/// A slash in the list opens the search field and goes there.
pub proof fn law_slash_opens_the_search(model: OverlayModel, context: KeyContext)
    requires
        !context.search_focused,
    ensures
        model.key_reaction(Key::Slash, context).0.contains(Effect::ShowSearch(true)),
        model.key_reaction(Key::Slash, context).0.last() == Effect::FocusSearch,
        model.key_reaction(Key::Slash, context).1 == Propagation::Stop,
{
    assert(model.key_reaction(Key::Slash, context).0[0] == Effect::ShowSearch(true));
}

/// What the backend refuses changes nothing; what it grants takes the item out of
/// the history, or pins or unpins it, and leaves the settings and the search alone.
pub proof fn law_answers_do_what_was_asked(
    model: OverlayModel,
    item_id: u64,
    pinned: bool,
    at: int,
)
    requires
        crate::history::is_first_of(model.history.all_items, at, item_id),
    ensures
        model.after_delete_answer(item_id, false) == model,
        model.after_pin_answer(item_id, pinned, false) == model,
        model.after_delete_answer(item_id, true).history.all_items
            == model.history.all_items.take(at) + model.history.all_items.skip(at + 1),
        model.after_pin_answer(item_id, true, true).history.all_items == seq![
            ItemModel { pinned: true, ..model.history.all_items[at] },
        ] + model.history.all_items.remove(at),
        model.after_pin_answer(item_id, pinned, true).history.all_items.to_multiset()
            == model.history.all_items.to_multiset().remove(model.history.all_items[at]).insert(
            (ItemModel { pinned, ..model.history.all_items[at] }),
        ),
        model.after_delete_answer(item_id, true).config == model.config,
        model.after_pin_answer(item_id, pinned, true).config == model.config,
        model.after_delete_answer(item_id, true).history.search_query == model.history.search_query,
        model.after_pin_answer(item_id, pinned, true).history.search_query
            == model.history.search_query,
{
    crate::history::law_deletion_takes_one_item(model.history, item_id, at);
    crate::history::law_pinned_item_goes_to_the_front(model.history, item_id, at);
    crate::history::law_pinning_changes_one_item(model.history.all_items, item_id, pinned);
    crate::history::lemma_place(model.history.all_items, item_id);
    assert(crate::history::place_of(model.history.all_items, item_id) == at) by {
        let place = crate::history::place_of(model.history.all_items, item_id);
        if place < at {
            assert(model.history.all_items[place].item_id != item_id);
        }
    }
}

/// Typing changes nothing but the search and what is shown: the history and the
/// settings stay.
pub proof fn law_search_keeps_the_history(model: OverlayModel, query: Seq<char>)
    ensures
        model.after_search(query).history.search_query == query,
        model.after_search(query).history.all_items == model.history.all_items,
        model.after_search(query).config == model.config,
        model.after_search(query).history.items == (HistoryModel {
            search_query: query,
            ..model.history
        }).rebuilt().items,
{
}

/// Each switch changes the setting it is for, to what it was switched to, and no
/// other.
pub proof fn law_switches_change_one_setting(model: OverlayModel, on: bool)
    ensures
        ({
            let trash = model.after_trash_toggle(on);
            let pin = model.after_pin_toggle(on);
            let persistence = model.after_persistence_toggle(on);
            let paste = model.after_instant_paste_toggle(on);
            &&& trash.config.show_trash == on && trash.history.show_trash == on
            &&& trash.config.show_pin == model.config.show_pin
            &&& trash.config.persistence_enabled == model.config.persistence_enabled
            &&& trash.config.instant_paste == model.config.instant_paste
            &&& pin.config.show_pin == on && pin.history.show_pin == on
            &&& pin.config.show_trash == model.config.show_trash
            &&& pin.config.persistence_enabled == model.config.persistence_enabled
            &&& pin.config.instant_paste == model.config.instant_paste
            &&& persistence.config.persistence_enabled == on
            &&& persistence.config.show_trash == model.config.show_trash
            &&& persistence.config.show_pin == model.config.show_pin
            &&& persistence.config.instant_paste == model.config.instant_paste
            &&& paste.config.instant_paste == on
            &&& paste.config.show_trash == model.config.show_trash
            &&& paste.config.show_pin == model.config.show_pin
            &&& paste.config.persistence_enabled == model.config.persistence_enabled
            &&& trash.history.all_items == model.history.all_items
            &&& pin.history.all_items == model.history.all_items
            &&& trash.history.items == model.history.items
            &&& pin.history.items == model.history.items
            &&& persistence.history == model.history
            &&& paste.history == model.history
        }),
{
}

/// An effect that selects a row selects the one it names: the first, or that of an
/// item that is shown.
pub proof fn law_selecting_effects_name_their_row(
    history: HistoryModel,
    at: i32,
    item_id: u64,
    focus: bool,
    selected: Option<i32>,
)
    requires
        crate::history::is_first_of(history.items, at as int, item_id),
    ensures
        chosen_row(history, Effect::SelectFirst { focus }, selected) == Some(
            (RowChoice { index: 0, focus }),
        ),
        chosen_row(history, Effect::SelectItem(item_id), selected) == Some(
            (RowChoice { index: at as usize, focus: true }),
        ),
{
    crate::history::law_rows_are_those_of_the_shown_items(history, at, item_id);
}

/// Leaving the search field leads to the row that is selected, or to the first one if
/// none is.
pub proof fn law_leaving_the_search_leads_to_a_row(
    model: OverlayModel,
    context: KeyContext,
    selected: Option<i32>,
)
    requires
        context.search_revealed,
        context.search_focused,
    ensures
        OverlayModel::back_to_list(selected).len() == 1,
        selected is Some ==> OverlayModel::back_to_list(selected)[0] == Effect::FocusList,
        selected is None ==> OverlayModel::back_to_list(selected)[0] == (Effect::SelectFirst {
            focus: true,
        }),
        context.selected is Some ==> model.key_reaction(Key::Escape, context).0[0]
            == Effect::FocusList,
        context.selected is None ==> model.key_reaction(Key::Escape, context).0[0] == (
        Effect::SelectFirst { focus: true }),
{
}

/// From the search field Down and Up give the list the focus first and then move the
/// selection as from the list.
pub proof fn law_arrows_lead_out_of_the_search(
    model: OverlayModel,
    context: KeyContext,
    elsewhere: KeyContext,
)
    requires
        context.search_focused,
        !elsewhere.search_focused,
    ensures
        model.key_reaction(Key::Down, context) == (
            seq![Effect::FocusList] + model.key_reaction(Key::Down, elsewhere).0,
            Propagation::Stop,
        ),
        model.key_reaction(Key::Up, context) == (
            seq![Effect::FocusList] + model.key_reaction(Key::Up, elsewhere).0,
            Propagation::Stop,
        ),
{
    assert(model.key_reaction(Key::Down, context).0 =~= seq![Effect::FocusList]
        + model.key_reaction(Key::Down, elsewhere).0);
    assert(model.key_reaction(Key::Up, context).0 =~= seq![Effect::FocusList]
        + model.key_reaction(Key::Up, elsewhere).0);
}

/// A key that has nothing to act on is passed on and has no effect: Enter, Delete and
/// P without a row that is selected, and any key without a meaning.
pub proof fn law_keys_without_a_row_are_passed_on(model: OverlayModel, key: Key, context: KeyContext)
    requires
        key == Key::U || key == Key::Other || context.selected is None && (key == Key::Enter || key
            == Key::Delete || key == Key::P),
    ensures
        model.key_reaction(key, context).0.len() == 0,
        model.key_reaction(key, context).1 == Propagation::Proceed,
{
}

/// In the search field every key is left to the field but Control with U, which
/// deletes what stands before the text cursor, and the two arrows, as long as there
/// is a row to go to; with none selected that is the first one.
pub proof fn law_search_field_keeps_its_keys(
    model: OverlayModel,
    key: Key,
    control: bool,
    position: i32,
    selected: Option<i32>,
)
    ensures
        key != Key::U && key != Key::Down && key != Key::Up ==> model.search_key_reaction(
            key,
            control,
            position,
            selected,
        ) == (Seq::<Effect>::empty(), Propagation::Proceed),
        key == Key::U ==> model.search_key_reaction(key, control, position, selected) == (
        if control && position > 0 {
            (seq![Effect::DeleteSearchText(position)], Propagation::Stop)
        } else {
            (Seq::<Effect>::empty(), Propagation::Proceed)
        }),
        (key == Key::Down || key == Key::Up) && model.history.items.len() > 0
            ==> model.search_key_reaction(key, control, position, None) == (
            seq![Effect::Select(RowChoice { index: 0, focus: true })],
            Propagation::Stop,
        ),
        (key == Key::Down || key == Key::Up) && model.history.items.len() == 0
            ==> model.search_key_reaction(key, control, position, None) == (
            Seq::<Effect>::empty(),
            Propagation::Proceed,
        ),
{
}

/// The pin button asks for the opposite of what the item is in the history, and for
/// nothing if the history does not have it.
pub proof fn law_pin_button_asks_for_the_opposite(model: OverlayModel, item_id: u64, at: int)
    ensures
        crate::history::is_first_of(model.history.all_items, at, item_id) ==> model.pin_request(
            item_id,
        ) == seq![Effect::SetPinned { item_id, pinned: !model.history.all_items[at].pinned }],
        (forall|j: int|
            0 <= j < model.history.all_items.len() ==> (
            #[trigger] model.history.all_items[j]).item_id != item_id) ==> model.pin_request(
            item_id,
        ).len() == 0,
{
    crate::history::lemma_place(model.history.all_items, item_id);
    if crate::history::is_first_of(model.history.all_items, at, item_id) {
        crate::history::law_pinned_item_goes_to_the_front(model.history, item_id, at);
    }
}

/// An item that the backend has unpinned stands behind all that are pinned and in
/// front of all others, which keep their order.
pub proof fn law_granted_unpin_moves_the_item(model: OverlayModel, item_id: u64, at: int)
    requires
        crate::history::is_first_of(model.history.all_items, at, item_id),
        crate::history::pinned_first(model.history.all_items),
    ensures
        ({
            let items = model.after_pin_answer(item_id, false, true).history.all_items;
            &&& crate::history::pinned_first(items)
            &&& exists|to: int|
                0 <= to < items.len() && #[trigger] items.remove(to)
                    == model.history.all_items.remove(at) && items[to] == (ItemModel {
                    pinned: false,
                    ..model.history.all_items[at]
                }) && forall|j: int| to < j < items.len() ==> !(#[trigger] items[j]).pinned
        }),
{
    let all = model.history.all_items;
    let items = model.after_pin_answer(item_id, false, true).history.all_items;
    crate::history::lemma_place(all, item_id);
    assert(crate::history::place_of(all, item_id) == at) by {
        let place = crate::history::place_of(all, item_id);
        if place < at {
            assert(all[place].item_id != item_id);
        }
    }
    crate::history::law_pinned_items_stay_in_front(all, item_id, false);
    let others = all.remove(at);
    let to = crate::history::first_unpinned(others);
    crate::history::lemma_first_unpinned(others);
    assert(items.remove(to) =~= others);
    assert forall|j: int| to < j < items.len() implies !(#[trigger] items[j]).pinned by {
        if items[j].pinned {
            assert(items[to].pinned);
        }
    }
}

} // verus!
