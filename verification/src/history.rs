//! The clipboard history as the overlay shows it: all items, those that match
//! the search, and which row is selected next.

use vstd::prelude::*;
use vstd::string::*;

use crate::text::{contains, to_lowercase, trim};

verus! {

/// What kind of text an item holds, as far as its looks depend on it.
#[derive(Clone, Copy, Debug, PartialEq, Eq, Structural)]
pub enum ContentClass {
    Code,
    File,
    Other,
}

/// The type of an item's content.
pub struct ClipboardContentType {
    pub class: ContentClass,
    pub name: String,
    pub icon: String,
}

/// One item of the history, as far as it is shown.
pub struct ClipboardItemPreview {
    pub item_id: u64,
    pub content_type: ClipboardContentType,
    pub content_preview: String,
    pub timestamp: u64,
    pub pinned: bool,
    pub thumbnail: Option<Vec<u8>>,
}

/// One item of the history, as mathematical values.
#[verifier::ext_equal]
pub struct ItemModel {
    pub item_id: u64,
    pub class: ContentClass,
    pub kind_name: Seq<char>,
    pub kind_icon: Seq<char>,
    pub preview: Seq<char>,
    pub timestamp: u64,
    pub pinned: bool,
    pub thumbnail: Option<Seq<u8>>,
}

impl View for ClipboardItemPreview {
    type V = ItemModel;

    open spec fn view(&self) -> ItemModel {
        ItemModel {
            item_id: self.item_id,
            class: self.content_type.class,
            kind_name: self.content_type.name@,
            kind_icon: self.content_type.icon@,
            preview: self.content_preview@,
            timestamp: self.timestamp,
            pinned: self.pinned,
            thumbnail: match self.thumbnail {
                Some(bytes) => Some(bytes@),
                None => None,
            },
        }
    }
}

impl ClipboardItemPreview {
    /// A copy of the item.
    pub fn copied(&self) -> (copy: Self)
        ensures
            copy@ == self@,
    {
        let thumbnail = match &self.thumbnail {
            Some(bytes) => {
                let copy = bytes.clone();
                assert(copy@ =~= bytes@);
                Some(copy)
            },
            None => None,
        };
        ClipboardItemPreview {
            item_id: self.item_id,
            content_type: ClipboardContentType {
                class: self.content_type.class,
                name: self.content_type.name.clone(),
                icon: self.content_type.icon.clone(),
            },
            content_preview: self.content_preview.clone(),
            timestamp: self.timestamp,
            pinned: self.pinned,
            thumbnail,
        }
    }
}

/// The items of a list, as mathematical values.
pub open spec fn item_models(items: Seq<ClipboardItemPreview>) -> Seq<ItemModel> {
    Seq::new(items.len(), |i: int| items[i]@)
}

/// The overlay's list.
pub struct HistoryListState {
    /// The items that are shown.
    pub items: Vec<ClipboardItemPreview>,
    /// The whole history.
    pub all_items: Vec<ClipboardItemPreview>,
    /// What the user typed into the search field.
    pub search_query: String,
    pub show_trash: bool,
    pub show_pin: bool,
}

/// The overlay's list, as mathematical values.
#[verifier::ext_equal]
pub struct HistoryModel {
    pub items: Seq<ItemModel>,
    pub all_items: Seq<ItemModel>,
    pub search_query: Seq<char>,
    pub show_trash: bool,
    pub show_pin: bool,
}

impl View for HistoryListState {
    type V = HistoryModel;

    open spec fn view(&self) -> HistoryModel {
        HistoryModel {
            items: item_models(self.items@),
            all_items: item_models(self.all_items@),
            search_query: self.search_query@,
            show_trash: self.show_trash,
            show_pin: self.show_pin,
        }
    }
}

/// What a query is compared as: without white space around it, in lower case.
pub open spec fn effective_query(query: Seq<char>) -> Seq<char> {
    crate::text::lowercase(crate::text::trimmed(query))
}

/// Whether a text in lower case, or the name of its type in lower case, holds
/// the query. Everything matches the empty query.
pub open spec fn matches_query(preview: Seq<char>, kind_name: Seq<char>, query: Seq<char>) -> bool {
    ||| query.len() == 0
    ||| crate::text::contains_text(preview, query)
    ||| crate::text::contains_text(kind_name, query)
}

impl ItemModel {
    /// Whether the item matches a query.
    pub open spec fn matches(self, query: Seq<char>) -> bool {
        matches_query(
            crate::text::lowercase(self.preview),
            crate::text::lowercase(self.kind_name),
            query,
        )
    }
}

/// Whether an item with these texts, both in lower case, matches a query.
pub fn lowered_matches_query(preview: &str, kind_name: &str, query: &str) -> (b: bool)
    ensures
        b == matches_query(preview@, kind_name@, query@),
        b <==> query@.len() == 0 || splits_around(preview@, query@) || splits_around(
            kind_name@,
            query@,
        ),
{
    proof {
        lemma_splits_around(preview@, query@);
        lemma_splits_around(kind_name@, query@);
    }
    if query.is_empty() {
        return true;
    }
    contains(preview, query) || contains(kind_name, query)
}

/// Whether an item matches a query. The query has to be in lower case already.
pub fn item_matches_query(item: &ClipboardItemPreview, query: &str) -> (b: bool)
    ensures
        b == item@.matches(query@),
{
    let preview = to_lowercase(item.content_preview.as_str());
    let kind_name = to_lowercase(item.content_type.name.as_str());
    lowered_matches_query(preview.as_str(), kind_name.as_str(), query)
}

/// A row to select, and whether it gets the keyboard focus as well.
#[derive(Clone, Copy, Debug, PartialEq, Eq, Structural)]
pub struct RowChoice {
    pub index: usize,
    pub focus: bool,
}

/// What a list shows in place of items.
#[derive(Clone, Copy, Debug, PartialEq, Eq, Structural)]
pub enum Placeholder {
    /// There are items to show.
    NotNeeded,
    /// There is no history.
    NoHistory,
    /// Nothing matches the search.
    NoMatches,
}

impl Placeholder {
    /// The text of the placeholder's row.
    pub open spec fn text(self) -> Option<Seq<char>> {
        match self {
            Placeholder::NotNeeded => None,
            Placeholder::NoHistory => Some("No clipboard history yet"@),
            Placeholder::NoMatches => Some("No matches found"@),
        }
    }

    /// The text of the placeholder's row.
    pub fn message(self) -> (message: Option<String>)
        ensures
            crate::text::opt_text(message) == self.text(),
    {
        match self {
            Placeholder::NotNeeded => None,
            Placeholder::NoHistory => Some("No clipboard history yet".to_owned()),
            Placeholder::NoMatches => Some("No matches found".to_owned()),
        }
    }
}

/// The first place of an item; the length of the list if it is not there.
pub open spec fn place_of(items: Seq<ItemModel>, item_id: u64) -> int
    decreases items.len(),
{
    if items.len() == 0 || items[0].item_id == item_id {
        0
    } else {
        1 + place_of(items.drop_first(), item_id)
    }
}

/// The first place of an item that is not pinned; the length of the list if all
/// are.
pub open spec fn first_unpinned(items: Seq<ItemModel>) -> int
    decreases items.len(),
{
    if items.len() == 0 || !items[0].pinned {
        0
    } else {
        1 + first_unpinned(items.drop_first())
    }
}

/// What is known of [`place_of`] without unfolding it.
pub proof fn lemma_place(items: Seq<ItemModel>, item_id: u64)
    ensures
        0 <= place_of(items, item_id) <= items.len(),
        place_of(items, item_id) < items.len() ==> items[place_of(items, item_id)].item_id
            == item_id,
        forall|j: int|
            0 <= j < place_of(items, item_id) ==> (#[trigger] items[j]).item_id != item_id,
    decreases items.len(),
{
    if items.len() == 0 || items[0].item_id == item_id {
    } else {
        let rest = items.drop_first();
        lemma_place(rest, item_id);
        assert forall|j: int| 0 <= j < 1 + place_of(rest, item_id) implies (
        #[trigger] items[j]).item_id != item_id by {
            if j > 0 {
                assert(items[j] == rest[j - 1]);
            }
        }
    }
}

/// What is known of [`first_unpinned`] without unfolding it.
pub proof fn lemma_first_unpinned(items: Seq<ItemModel>)
    ensures
        0 <= first_unpinned(items) <= items.len(),
        first_unpinned(items) < items.len() ==> !items[first_unpinned(items)].pinned,
        forall|j: int| 0 <= j < first_unpinned(items) ==> (#[trigger] items[j]).pinned,
    decreases items.len(),
{
    if items.len() == 0 || !items[0].pinned {
    } else {
        let rest = items.drop_first();
        lemma_first_unpinned(rest);
        assert forall|j: int| 0 <= j < 1 + first_unpinned(rest) implies (
        #[trigger] items[j]).pinned by {
            if j > 0 {
                assert(items[j] == rest[j - 1]);
            }
        }
    }
}

/// A list in which an item was pinned or unpinned: it moves to the front, or in
/// front of the first item that is not pinned.
pub open spec fn with_pinned(items: Seq<ItemModel>, item_id: u64, pinned: bool) -> Seq<ItemModel> {
    let place = place_of(items, item_id);
    if place >= items.len() {
        items
    } else {
        let others = items.remove(place);
        let item = ItemModel { pinned, ..items[place] };
        others.insert(
            if pinned {
                0
            } else {
                first_unpinned(others)
            },
            item,
        )
    }
}

/// A list without the first item of a number.
pub open spec fn without(items: Seq<ItemModel>, item_id: u64) -> Seq<ItemModel> {
    let place = place_of(items, item_id);
    if place >= items.len() {
        items
    } else {
        items.remove(place)
    }
}

impl HistoryModel {
    /// The list after the items to show were picked anew.
    pub open spec fn rebuilt(self) -> Self {
        let query = effective_query(self.search_query);
        HistoryModel { items: self.all_items.filter(|item: ItemModel| item.matches(query)), ..self }
    }

    /// The row to show in place of items, if there are none to show.
    pub open spec fn placeholder(self) -> Placeholder {
        if self.items.len() > 0 {
            Placeholder::NotNeeded
        } else if effective_query(self.search_query).len() == 0 {
            Placeholder::NoHistory
        } else {
            Placeholder::NoMatches
        }
    }

    /// How many rows the list has: one for each item, or one placeholder.
    pub open spec fn row_count(self) -> int {
        if self.items.len() == 0 {
            1
        } else {
            self.items.len() as int
        }
    }

    /// The choice of the first row. A placeholder cannot be chosen.
    pub open spec fn first_row(self, focus: bool) -> Option<RowChoice> {
        if self.items.len() == 0 {
            None
        } else {
            Some(RowChoice { index: 0, focus })
        }
    }

    /// The choice of the row below the selected one. Below the last row there
    /// is the first one, if the list wraps; with nothing selected it is the first
    /// in any case.
    pub open spec fn next_row(self, selected: Option<i32>, wrap: bool) -> Option<RowChoice> {
        match selected {
            Some(current) => if 0 <= current + 1 < self.row_count() {
                Some(RowChoice { index: (current + 1) as usize, focus: true })
            } else if wrap {
                self.first_row(true)
            } else {
                None
            },
            None => self.first_row(true),
        }
    }

    /// The choice of the row above the selected one. Above the first row there
    /// is the first one again, if the list wraps.
    pub open spec fn previous_row(self, selected: Option<i32>, wrap: bool) -> Option<RowChoice> {
        match selected {
            Some(current) => if 0 <= current - 1 < self.row_count() {
                Some(RowChoice { index: (current - 1) as usize, focus: true })
            } else if wrap {
                self.first_row(true)
            } else {
                None
            },
            None => self.first_row(true),
        }
    }

    /// The choice of an item's row, or of the first one if the item is not shown.
    pub open spec fn row_of_item(self, item_id: u64) -> Option<RowChoice> {
        let place = place_of(self.items, item_id);
        if place < self.items.len() {
            Some(RowChoice { index: place as usize, focus: true })
        } else {
            self.first_row(true)
        }
    }

    /// The item of a row, if the row is that of an item.
    pub open spec fn item_of_row(self, index: i32) -> Option<u64> {
        if 0 <= index < self.items.len() {
            Some(self.items[index as int].item_id)
        } else {
            None
        }
    }

    /// Whether an item is to be pinned or unpinned next.
    pub open spec fn next_pinned(self, item_id: u64) -> Option<bool> {
        let place = place_of(self.all_items, item_id);
        if place < self.all_items.len() {
            Some(!self.all_items[place].pinned)
        } else {
            None
        }
    }

    /// The list after an item was pinned or unpinned.
    pub open spec fn after_pinned(self, item_id: u64, pinned: bool) -> Self {
        HistoryModel { all_items: with_pinned(self.all_items, item_id, pinned), ..self }
    }

    /// The list after an item was deleted.
    pub open spec fn after_delete(self, item_id: u64) -> Self {
        HistoryModel { all_items: without(self.all_items, item_id), ..self }
    }
}

impl HistoryListState {
    /// The list over a whole history, with nothing typed into the search field
    /// and nothing shown yet.
    pub fn new(all_items: Vec<ClipboardItemPreview>, show_trash: bool, show_pin: bool) -> (state:
        Self)
        ensures
            state@ == (HistoryModel {
                items: seq![],
                all_items: item_models(all_items@),
                search_query: seq![],
                show_trash,
                show_pin,
            }),
    {
        let state = HistoryListState {
            items: Vec::new(),
            all_items,
            search_query: String::new(),
            show_trash,
            show_pin,
        };
        assert(state@.items =~= seq![]);
        state
    }

    /// Picks the items to show anew: those of the history that match what was
    /// typed, in the history's order, and all of them if that is blank. Returns
    /// what stands in their place if there are none.
    pub fn rebuild_list(&mut self) -> (placeholder: Placeholder)
        ensures
            final(self)@ == old(self)@.rebuilt(),
            placeholder == final(self)@.placeholder(),
            crate::text::trimmed(old(self)@.search_query).len() == 0 ==> final(self)@.items
                == old(self)@.all_items,
            placeholder == Placeholder::NoMatches <==> final(self)@.items.len() == 0
                && crate::text::trimmed(old(self)@.search_query).len() > 0,
    {
        let trimmed = trim(self.search_query.as_str());
        let query = to_lowercase(trimmed.as_str());
        let ghost all = self@.all_items;
        let ghost wanted = |item: ItemModel| item.matches(query@);
        let mut items: Vec<ClipboardItemPreview> = Vec::new();
        let mut i: usize = 0;
        proof {
            reveal(Seq::filter);
        }
        assert(item_models(items@) =~= all.take(0).filter(wanted));
        while i < self.all_items.len()
            invariant
                all == item_models(self.all_items@),
                wanted == (|item: ItemModel| item.matches(query@)),
                i <= self.all_items@.len(),
                item_models(items@) == all.take(i as int).filter(wanted),
            decreases self.all_items@.len() - i,
        {
            let item = &self.all_items[i];
            assert(item@ == all[i as int]);
            let ghost before = items@;
            proof {
                reveal(Seq::filter);
                assert(all.take(i + 1).drop_last() =~= all.take(i as int));
                assert(all.take(i + 1).last() == all[i as int]);
            }
            if item_matches_query(item, query.as_str()) {
                items.push(item.copied());
                assert(item_models(items@) =~= item_models(before).push(item@));
            }
            i = i + 1;
        }
        assert(all.take(i as int) =~= all);
        let placeholder = if items.len() > 0 {
            Placeholder::NotNeeded
        } else if query.as_str().is_empty() {
            Placeholder::NoHistory
        } else {
            Placeholder::NoMatches
        };
        self.items = items;
        assert(self@.items == old(self)@.rebuilt().items);
        proof {
            if query@.len() == 0 {
                law_blank_query_shows_everything(old(self)@);
            }
        }
        placeholder
    }

    /// The choice of the first row, with the focus if `grab_focus` is set.
    pub fn select_first_row_with_focus(&self, grab_focus: bool) -> (choice: Option<RowChoice>)
        ensures
            choice == self@.first_row(grab_focus),
    {
        if self.items.len() == 0 {
            None
        } else {
            Some(RowChoice { index: 0, focus: grab_focus })
        }
    }

    /// The choice of the first row, with the focus.
    pub fn select_first_row(&self) -> (choice: Option<RowChoice>)
        ensures
            choice == self@.first_row(true),
    {
        self.select_first_row_with_focus(true)
    }

    /// The choice of the first row, without the focus.
    pub fn select_first_row_without_focus(&self) -> (choice: Option<RowChoice>)
        ensures
            choice == self@.first_row(false),
    {
        self.select_first_row_with_focus(false)
    }

    fn rows(&self) -> (count: usize)
        ensures
            count == self@.row_count(),
    {
        if self.items.len() == 0 {
            1
        } else {
            self.items.len()
        }
    }

    fn row_at(&self, index: i64) -> (choice: Option<RowChoice>)
        ensures
            choice == if 0 <= index < self@.row_count() {
                Some(RowChoice { index: index as usize, focus: true })
            } else {
                None
            },
    {
        if index >= 0 && (index as u128) < self.rows() as u128 {
            Some(RowChoice { index: index as usize, focus: true })
        } else {
            None
        }
    }

    /// The choice of the row below the selected one.
    pub fn select_next_row(&self, selected: Option<i32>, wrap_to_first: bool) -> (choice: Option<
        RowChoice,
    >)
        ensures
            choice == self@.next_row(selected, wrap_to_first),
    {
        match selected {
            Some(current) => {
                let next = self.row_at(current as i64 + 1);
                if next.is_some() {
                    next
                } else if wrap_to_first {
                    self.select_first_row_with_focus(true)
                } else {
                    None
                }
            },
            None => self.select_first_row_with_focus(true),
        }
    }

    /// The choice of the row above the selected one.
    pub fn select_previous_row(&self, selected: Option<i32>, wrap_to_first: bool) -> (choice:
        Option<RowChoice>)
        ensures
            choice == self@.previous_row(selected, wrap_to_first),
    {
        match selected {
            Some(current) => {
                let previous = self.row_at(current as i64 - 1);
                if previous.is_some() {
                    previous
                } else if wrap_to_first {
                    self.select_first_row_with_focus(true)
                } else {
                    None
                }
            },
            None => self.select_first_row_with_focus(true),
        }
    }

    /// The choice of an item's row.
    pub fn select_row_by_item_id(&self, item_id: u64) -> (choice: Option<RowChoice>)
        ensures
            choice == self@.row_of_item(item_id),
    {
        let place: usize = find_item(&self.items, item_id);
        if place < self.items.len() {
            Some(RowChoice { index: place, focus: true })
        } else {
            self.select_first_row()
        }
    }

    /// The item of a row.
    pub fn item_at_row(&self, index: i32) -> (item_id: Option<u64>)
        ensures
            item_id == self@.item_of_row(index),
            0 <= index < self@.items.len() ==> item_id == Some(self@.items[index as int].item_id),
            !(0 <= index < self@.items.len()) ==> item_id is None,
    {
        if index >= 0 && (index as usize) < self.items.len() {
            assert(self@.items[index as int] == self.items@[index as int]@);
            Some(self.items[index as usize].item_id)
        } else {
            None
        }
    }

    /// Whether an item is to be pinned or unpinned next: the opposite of what it
    /// is now. Nothing if there is no such item.
    pub fn next_pinned_state(&self, item_id: u64) -> (pinned: Option<bool>)
        ensures
            pinned == self@.next_pinned(item_id),
    {
        let place: usize = find_item(&self.all_items, item_id);
        if place < self.all_items.len() {
            assert(self@.all_items[place as int] == self.all_items@[place as int]@);
            Some(!self.all_items[place].pinned)
        } else {
            None
        }
    }

    /// Pins or unpins an item, and moves it to where it belongs.
    pub fn apply_pinned_state(&mut self, item_id: u64, pinned: bool)
        ensures
            final(self)@ == old(self)@.after_pinned(item_id, pinned),
    {
        let place: usize = find_item(&self.all_items, item_id);
        if place >= self.all_items.len() {
            return;
        }
        let ghost items = self@.all_items;
        let mut item = self.all_items.remove(place);
        assert(item@ == items[place as int]);
        item.pinned = pinned;
        let ghost others = items.remove(place as int);
        assert(item_models(self.all_items@) =~= others);
        let insert_index: usize = if pinned {
            0
        } else {
            find_unpinned(&self.all_items)
        };
        proof {
            lemma_first_unpinned(others);
        }
        self.all_items.insert(insert_index, item);
        assert(self@.all_items =~= with_pinned(items, item_id, pinned));
    }

    /// Deletes an item.
    pub fn delete_item(&mut self, item_id: u64)
        ensures
            final(self)@ == old(self)@.after_delete(item_id),
    {
        let place: usize = find_item(&self.all_items, item_id);
        if place < self.all_items.len() {
            let ghost items = self@.all_items;
            self.all_items.remove(place);
            assert(self@.all_items =~= items.remove(place as int));
        }
    }
}

fn find_item(items: &Vec<ClipboardItemPreview>, item_id: u64) -> (place: usize)
    ensures
        place == place_of(item_models(items@), item_id),
        place <= items@.len(),
{
    let ghost models = item_models(items@);
    proof {
        lemma_place(models, item_id);
    }
    let mut i: usize = 0;
    while i < items.len()
        invariant
            models == item_models(items@),
            i <= items@.len(),
            forall|j: int| 0 <= j < i ==> (#[trigger] models[j]).item_id != item_id,
            0 <= place_of(models, item_id) <= models.len(),
            place_of(models, item_id) < models.len() ==> models[place_of(models, item_id)].item_id
                == item_id,
            forall|j: int|
                0 <= j < place_of(models, item_id) ==> (#[trigger] models[j]).item_id != item_id,
        decreases items@.len() - i,
    {
        assert(models[i as int].item_id == items@[i as int].item_id);
        if items[i].item_id == item_id {
            return i;
        }
        i = i + 1;
    }
    i
}

fn find_unpinned(items: &Vec<ClipboardItemPreview>) -> (place: usize)
    ensures
        place == first_unpinned(item_models(items@)),
        place <= items@.len(),
{
    let ghost models = item_models(items@);
    proof {
        lemma_first_unpinned(models);
    }
    let mut i: usize = 0;
    while i < items.len()
        invariant
            models == item_models(items@),
            i <= items@.len(),
            forall|j: int| 0 <= j < i ==> (#[trigger] models[j]).pinned,
            0 <= first_unpinned(models) <= models.len(),
            first_unpinned(models) < models.len() ==> !models[first_unpinned(models)].pinned,
            forall|j: int| 0 <= j < first_unpinned(models) ==> (#[trigger] models[j]).pinned,
        decreases items@.len() - i,
    {
        assert(models[i as int].pinned == items@[i as int].pinned);
        if !items[i].pinned {
            return i;
        }
        i = i + 1;
    }
    i
}

/// Whether all pinned items stand in front of all others.
pub open spec fn pinned_first(items: Seq<ItemModel>) -> bool {
    forall|i: int, j: int|
        0 <= i < j < items.len() && (#[trigger] items[j]).pinned ==> (#[trigger] items[i]).pinned
}

/// Whether no two items have the same number.
pub open spec fn distinct_ids(items: Seq<ItemModel>) -> bool {
    forall|i: int, j: int|
        0 <= i < j < items.len() ==> (#[trigger] items[i]).item_id != (#[trigger] items[j]).item_id
}

/// Where the item ends up that is pinned or unpinned, and where the others do.
proof fn lemma_with_pinned(items: Seq<ItemModel>, item_id: u64, pinned: bool)
    requires
        place_of(items, item_id) < items.len(),
    ensures
        ({
            let place = place_of(items, item_id);
            let others = items.remove(place);
            let target = if pinned {
                0
            } else {
                first_unpinned(others)
            };
            let result = with_pinned(items, item_id, pinned);
            &&& 0 <= place < items.len()
            &&& items[place].item_id == item_id
            &&& 0 <= target <= others.len()
            &&& result == others.insert(target, ItemModel { pinned, ..items[place] })
            &&& result.len() == items.len()
        }),
{
    lemma_place(items, item_id);
    lemma_first_unpinned(items.remove(place_of(items, item_id)));
}

/// As long as the pinned items stand in front, they still do after an item was
/// pinned or unpinned.
pub proof fn law_pinned_items_stay_in_front(items: Seq<ItemModel>, item_id: u64, pinned: bool)
    requires
        pinned_first(items),
    ensures
        pinned_first(with_pinned(items, item_id, pinned)),
{
    let place = place_of(items, item_id);
    if place < items.len() {
        lemma_with_pinned(items, item_id, pinned);
        let others = items.remove(place);
        assert forall|i: int, j: int|
            0 <= i < j < others.len() && (#[trigger] others[j]).pinned implies (
        #[trigger] others[i]).pinned by {
            let a = if i < place {
                i
            } else {
                i + 1
            };
            let b = if j < place {
                j
            } else {
                j + 1
            };
            assert(others[i] == items[a]);
            assert(others[j] == items[b]);
        }
        lemma_first_unpinned(others);
        let target = if pinned {
            0
        } else {
            first_unpinned(others)
        };
        let result = with_pinned(items, item_id, pinned);
        assert forall|i: int, j: int|
            0 <= i < j < result.len() && (#[trigger] result[j]).pinned implies (
        #[trigger] result[i]).pinned by {
            let a = if i < target {
                i
            } else {
                i - 1
            };
            let b = if j < target {
                j
            } else {
                j - 1
            };
            if i != target {
                assert(result[i] == others[a]);
            }
            if j != target {
                assert(result[j] == others[b]);
            }
            if !pinned && i == target {
                assert(!others[target].pinned);
                assert(others[b].pinned);
            }
        }
    }
}

/// Pinning or unpinning an item loses no item, makes none, and changes none but
/// that one, of which only whether it is pinned changes.
pub proof fn law_pinning_changes_one_item(items: Seq<ItemModel>, item_id: u64, pinned: bool)
    ensures
        place_of(items, item_id) >= items.len() ==> with_pinned(items, item_id, pinned) == items,
        place_of(items, item_id) < items.len() ==> with_pinned(
            items,
            item_id,
            pinned,
        ).to_multiset() == items.to_multiset().remove(items[place_of(items, item_id)]).insert(
            (ItemModel { pinned, ..items[place_of(items, item_id)] }),
        ),
{
    broadcast use vstd::seq_lib::group_to_multiset_ensures;

    let place = place_of(items, item_id);
    if place < items.len() {
        lemma_with_pinned(items, item_id, pinned);
        let others = items.remove(place);
        let item = ItemModel { pinned, ..items[place] };
        let target = if pinned {
            0
        } else {
            first_unpinned(others)
        };
        assert(others.to_multiset() =~= items.to_multiset().remove(items[place]));
        let front = others.take(target);
        let back = others.skip(target);
        assert(others =~= front + back);
        assert(others.insert(target, item) =~= front + seq![item] + back);
        vstd::seq_lib::lemma_multiset_commutative(front, back);
        vstd::seq_lib::lemma_multiset_commutative(front, seq![item]);
        vstd::seq_lib::lemma_multiset_commutative(front + seq![item], back);
        assert(seq![item] =~= Seq::<ItemModel>::empty().push(item));
        assert(others.insert(target, item).to_multiset() =~= others.to_multiset().insert(item));
    }
}

proof fn lemma_distinct_place(items: Seq<ItemModel>, at: int)
    requires
        distinct_ids(items),
        0 <= at < items.len(),
    ensures
        place_of(items, items[at].item_id) == at,
{
    lemma_place(items, items[at].item_id);
    let place = place_of(items, items[at].item_id);
    if place < at {
        assert(items[place].item_id == items[at].item_id);
    }
}

/// Numbers that are distinct stay so, whatever is pinned, unpinned or deleted.
pub proof fn law_ids_stay_distinct(items: Seq<ItemModel>, item_id: u64, pinned: bool)
    requires
        distinct_ids(items),
    ensures
        distinct_ids(with_pinned(items, item_id, pinned)),
        distinct_ids(without(items, item_id)),
{
    let place = place_of(items, item_id);
    if place < items.len() {
        lemma_with_pinned(items, item_id, pinned);
        let others = items.remove(place);
        assert forall|i: int, j: int| 0 <= i < j < others.len() implies (
        #[trigger] others[i]).item_id != (#[trigger] others[j]).item_id by {
            let a = if i < place {
                i
            } else {
                i + 1
            };
            let b = if j < place {
                j
            } else {
                j + 1
            };
            assert(others[i] == items[a]);
            assert(others[j] == items[b]);
        }
        assert forall|i: int| 0 <= i < others.len() implies (#[trigger] others[i]).item_id
            != item_id by {
            let a = if i < place {
                i
            } else {
                i + 1
            };
            assert(others[i] == items[a]);
            assert(items[place].item_id == item_id);
        }
        let target = if pinned {
            0
        } else {
            first_unpinned(others)
        };
        let result = with_pinned(items, item_id, pinned);
        assert forall|i: int, j: int| 0 <= i < j < result.len() implies (
        #[trigger] result[i]).item_id != (#[trigger] result[j]).item_id by {
            if i != target {
                assert(result[i] == others[if i < target {
                    i
                } else {
                    i - 1
                }]);
            }
            if j != target {
                assert(result[j] == others[if j < target {
                    j
                } else {
                    j - 1
                }]);
            }
        }
    }
}

/// After an item was pinned it is to be unpinned next, and the other way round.
pub proof fn law_pinning_toggles(model: HistoryModel, item_id: u64, pinned: bool)
    requires
        distinct_ids(model.all_items),
        model.next_pinned(item_id) is Some,
    ensures
        model.after_pinned(item_id, pinned).next_pinned(item_id) == Some(!pinned),
{
    lemma_with_pinned(model.all_items, item_id, pinned);
    law_ids_stay_distinct(model.all_items, item_id, pinned);
    let items = model.all_items;
    let others = items.remove(place_of(items, item_id));
    let target = if pinned {
        0
    } else {
        first_unpinned(others)
    };
    lemma_distinct_place(with_pinned(items, item_id, pinned), target);
}

/// A deleted item is gone from the history and from whatever is shown of it
/// afterwards; all others stay, in their order.
pub proof fn law_deleted_item_is_gone(model: HistoryModel, item_id: u64)
    requires
        distinct_ids(model.all_items),
    ensures
        model.after_delete(item_id).next_pinned(item_id) is None,
        forall|k: int|
            0 <= k < model.after_delete(item_id).rebuilt().items.len() ==> (
            #[trigger] model.after_delete(item_id).rebuilt().items[k]).item_id != item_id,
        model.after_delete(item_id).all_items == model.all_items.filter(
            |item: ItemModel| item.item_id != item_id,
        ),
{
    let items = model.all_items;
    let left = without(items, item_id);
    let place = place_of(items, item_id);
    lemma_place(items, item_id);
    assert forall|i: int| 0 <= i < left.len() implies (#[trigger] left[i]).item_id != item_id by {
        if place < items.len() {
            let a = if i < place {
                i
            } else {
                i + 1
            };
            assert(left[i] == items[a]);
            assert(items[place].item_id == item_id);
        } else {
            assert(left[i] == items[i]);
        }
    }
    lemma_place(left, item_id);
    let shown = model.after_delete(item_id).rebuilt().items;
    let query = effective_query(model.search_query);
    lemma_filter_members(left, |item: ItemModel| item.matches(query));
    assert forall|k: int| 0 <= k < shown.len() implies (#[trigger] shown[k]).item_id != item_id by {
        assert(left.contains(shown[k]));
    }
    lemma_filter_without(items, item_id);
}

proof fn lemma_filter_members(items: Seq<ItemModel>, wanted: spec_fn(ItemModel) -> bool)
    ensures
        forall|k: int|
            0 <= k < items.filter(wanted).len() ==> wanted(#[trigger] items.filter(wanted)[k])
                && items.contains(items.filter(wanted)[k]),
    decreases items.len(),
{
    reveal(Seq::filter);
    if items.len() > 0 {
        let shorter = items.drop_last();
        lemma_filter_members(shorter, wanted);
        let kept = items.filter(wanted);
        assert forall|k: int| 0 <= k < kept.len() implies wanted(#[trigger] kept[k])
            && items.contains(kept[k]) by {
            if k < shorter.filter(wanted).len() {
                assert(kept[k] == shorter.filter(wanted)[k]);
                let m = choose|m: int| 0 <= m < shorter.len() && shorter[m] == kept[k];
                assert(items[m] == kept[k]);
            } else {
                assert(items[items.len() - 1] == kept[k]);
            }
        }
    }
}

proof fn lemma_filter_all(items: Seq<ItemModel>, wanted: spec_fn(ItemModel) -> bool)
    requires
        forall|i: int| 0 <= i < items.len() ==> wanted(#[trigger] items[i]),
    ensures
        items.filter(wanted) == items,
    decreases items.len(),
{
    reveal(Seq::filter);
    if items.len() > 0 {
        let shorter = items.drop_last();
        assert forall|i: int| 0 <= i < shorter.len() implies wanted(#[trigger] shorter[i]) by {
            assert(shorter[i] == items[i]);
        }
        lemma_filter_all(shorter, wanted);
        assert(wanted(items[items.len() - 1]));
        assert(items =~= shorter.push(items.last()));
    }
}

proof fn lemma_filter_without(items: Seq<ItemModel>, item_id: u64)
    requires
        distinct_ids(items),
    ensures
        items.filter(|item: ItemModel| item.item_id != item_id) == without(items, item_id),
    decreases items.len(),
{
    reveal(Seq::filter);
    let wanted = |item: ItemModel| item.item_id != item_id;
    lemma_place(items, item_id);
    let place = place_of(items, item_id);
    if items.len() > 0 {
        let shorter = items.drop_last();
        assert(distinct_ids(shorter));
        lemma_place(shorter, item_id);
        if place == items.len() - 1 {
            assert forall|i: int| 0 <= i < shorter.len() implies wanted(#[trigger] shorter[i]) by {
                assert(shorter[i] == items[i]);
            }
            lemma_filter_all(shorter, wanted);
            assert(items.remove(place) =~= shorter);
        } else if place < items.len() {
            lemma_filter_without(shorter, item_id);
            assert(place_of(shorter, item_id) == place) by {
                assert(shorter[place].item_id == item_id);
                let found = place_of(shorter, item_id);
                if found < place {
                    assert(items[found].item_id == item_id);
                }
            }
            assert(items[items.len() - 1].item_id != items[place].item_id);
            assert(items.remove(place) =~= shorter.remove(place).push(items.last()));
        } else {
            assert forall|i: int| 0 <= i < items.len() implies wanted(#[trigger] items[i]) by {}
            lemma_filter_all(items, wanted);
        }
    }
}

/// With a query that is empty in the form in which it is compared, the whole
/// history is shown.
pub proof fn law_blank_query_shows_everything(model: HistoryModel)
    requires
        effective_query(model.search_query).len() == 0,
    ensures
        model.rebuilt().items == model.all_items,
{
    let query = effective_query(model.search_query);
    lemma_filter_all(model.all_items, |item: ItemModel| item.matches(query));
}

/// What is shown are items of the history that match the query, and every item
/// that matches is shown.
pub proof fn law_shown_items_match(model: HistoryModel)
    ensures
        forall|k: int|
            0 <= k < model.rebuilt().items.len() ==> {
                let item = #[trigger] model.rebuilt().items[k];
                item.matches(effective_query(model.search_query)) && model.all_items.contains(item)
            },
        forall|i: int|
            0 <= i < model.all_items.len() && (#[trigger] model.all_items[i]).matches(
                effective_query(model.search_query),
            ) ==> model.rebuilt().items.contains(model.all_items[i]),
{
    let query = effective_query(model.search_query);
    let wanted = |item: ItemModel| item.matches(query);
    lemma_filter_members(model.all_items, wanted);
    lemma_filter_keeps(model.all_items, wanted);
    assert forall|i: int|
        0 <= i < model.all_items.len() && (#[trigger] model.all_items[i]).matches(
            query,
        ) implies model.rebuilt().items.contains(model.all_items[i]) by {
        assert(wanted(model.all_items[i]));
    }
}

proof fn lemma_filter_keeps(items: Seq<ItemModel>, wanted: spec_fn(ItemModel) -> bool)
    ensures
        forall|i: int|
            0 <= i < items.len() && wanted(#[trigger] items[i]) ==> items.filter(wanted).contains(
                items[i],
            ),
    decreases items.len(),
{
    reveal(Seq::filter);
    if items.len() > 0 {
        let shorter = items.drop_last();
        lemma_filter_keeps(shorter, wanted);
        let kept = items.filter(wanted);
        let front = shorter.filter(wanted);
        assert forall|i: int| 0 <= i < items.len() && wanted(#[trigger] items[i]) implies kept.contains(
            items[i],
        ) by {
            if i < shorter.len() {
                assert(shorter[i] == items[i]);
                let m = choose|m: int| 0 <= m < front.len() && front[m] == items[i];
                assert(kept[m] == items[i]);
            } else {
                assert(kept[kept.len() - 1] == items[i]);
            }
        }
    }
}

/// Whichever way the selection goes, it ends on a row that is there.
pub proof fn law_selection_stays_in_list(
    model: HistoryModel,
    selected: Option<i32>,
    wrap: bool,
    item_id: u64,
    focus: bool,
)
    requires
        model.items.len() <= usize::MAX,
    ensures
        model.first_row(focus) matches Some(choice) ==> choice.index < model.items.len(),
        model.next_row(selected, wrap) matches Some(choice) ==> choice.index < model.row_count(),
        model.previous_row(selected, wrap) matches Some(choice) ==> choice.index
            < model.row_count(),
        model.row_of_item(item_id) matches Some(choice) ==> choice.index < model.items.len(),
{
    lemma_place(model.items, item_id);
}

/// Up undoes down, and down undoes up, wherever the list does not end.
pub proof fn law_up_undoes_down(model: HistoryModel, current: i32, wrap: bool)
    requires
        0 <= current < i32::MAX,
        current + 1 < model.items.len(),
    ensures
        model.next_row(Some(current), wrap) == Some(
            (RowChoice { index: (current + 1) as usize, focus: true }),
        ),
        model.previous_row(Some((current + 1) as i32), wrap) == Some(
            (RowChoice { index: current as usize, focus: true }),
        ),
{
}

/// Whether a text can be split so that another stands in the middle.
pub open spec fn splits_around(text: Seq<char>, middle: Seq<char>) -> bool {
    exists|a: Seq<char>, b: Seq<char>| text == #[trigger] (a + middle + b)
}

proof fn lemma_splits_around(text: Seq<char>, middle: Seq<char>)
    ensures
        splits_around(text, middle) <==> crate::text::contains_text(text, middle),
{
    crate::text::law_contained_text_stands_between(text, middle, seq![], seq![]);
    if splits_around(text, middle) {
        let (a, b) = choose|a: Seq<char>, b: Seq<char>| text == #[trigger] (a + middle + b);
        crate::text::law_contained_text_stands_between(text, middle, a, b);
    }
}

/// An item is found by every piece of its preview or of its type's name in lower
/// case, wherever the piece stands, and by nothing else.
pub proof fn law_search_finds_every_piece(
    preview: Seq<char>,
    kind_name: Seq<char>,
    query: Seq<char>,
    before: Seq<char>,
    behind: Seq<char>,
)
    ensures
        matches_query(before + query + behind, kind_name, query),
        matches_query(preview, before + query + behind, query),
        query.len() > 0 && matches_query(preview, kind_name, query) ==> splits_around(
            preview,
            query,
        ) || splits_around(kind_name, query),
{
    crate::text::law_contained_text_stands_between(preview, query, before, behind);
    crate::text::law_contained_text_stands_between(kind_name, query, before, behind);
}

/// What is shown are the items whose preview or type's name, in lower case, can be
/// split around the query, in lower case and without the white space around it;
/// all of those, no others, in the order of the history.
pub proof fn law_list_shows_what_the_search_finds(model: HistoryModel)
    ensures
        ({
            let query = crate::text::lowercase(crate::text::trimmed(model.search_query));
            &&& model.rebuilt().items == model.all_items.filter(
                |item: ItemModel|
                    splits_around(crate::text::lowercase(item.preview), query) || splits_around(
                        crate::text::lowercase(item.kind_name),
                        query,
                    ),
            )
            &&& forall|i: int, a: Seq<char>, b: Seq<char>|
                #![trigger model.all_items[i], a + query + b]
                0 <= i < model.all_items.len() && (crate::text::lowercase(
                    model.all_items[i].preview,
                ) == a + query + b || crate::text::lowercase(model.all_items[i].kind_name) == a
                    + query + b) ==> model.rebuilt().items.contains(model.all_items[i])
            &&& model.rebuilt().all_items == model.all_items
            &&& model.rebuilt().search_query == model.search_query
            &&& model.rebuilt().show_trash == model.show_trash
            &&& model.rebuilt().show_pin == model.show_pin
        }),
{
    let query = crate::text::lowercase(crate::text::trimmed(model.search_query));
    let wanted = |item: ItemModel| item.matches(query);
    let found = |item: ItemModel|
        splits_around(crate::text::lowercase(item.preview), query) || splits_around(
            crate::text::lowercase(item.kind_name),
            query,
        );
    assert forall|item: ItemModel| #[trigger] wanted(item) == found(item) by {
        let preview = crate::text::lowercase(item.preview);
        let kind_name = crate::text::lowercase(item.kind_name);
        law_search_finds_every_piece(preview, kind_name, query, seq![], seq![]);
        if query.len() == 0 {
            assert(preview =~= Seq::<char>::empty() + query + preview);
        }
        if splits_around(preview, query) {
            let (a, b) = choose|a: Seq<char>, b: Seq<char>| preview == #[trigger] (a + query + b);
            law_search_finds_every_piece(preview, kind_name, query, a, b);
        }
        if splits_around(kind_name, query) {
            let (a, b) = choose|a: Seq<char>, b: Seq<char>| kind_name == #[trigger] (a + query + b);
            law_search_finds_every_piece(preview, kind_name, query, a, b);
        }
    }
    assert(wanted =~= found);
    lemma_filter_keeps(model.all_items, found);
    assert forall|i: int, a: Seq<char>, b: Seq<char>|
        #![trigger model.all_items[i], a + query + b]
        0 <= i < model.all_items.len() && (crate::text::lowercase(model.all_items[i].preview) == a
            + query + b || crate::text::lowercase(model.all_items[i].kind_name) == a + query
            + b) implies model.rebuilt().items.contains(model.all_items[i]) by {
        assert(found(model.all_items[i]));
    }
}

/// Whether the item at a place is the first of its number.
pub open spec fn is_first_of(items: Seq<ItemModel>, at: int, item_id: u64) -> bool {
    &&& 0 <= at < items.len()
    &&& items[at].item_id == item_id
    &&& forall|j: int| 0 <= j < at ==> (#[trigger] items[j]).item_id != item_id
}

proof fn lemma_first_of(items: Seq<ItemModel>, at: int, item_id: u64)
    requires
        is_first_of(items, at, item_id),
    ensures
        place_of(items, item_id) == at,
{
    lemma_place(items, item_id);
    let place = place_of(items, item_id);
    if place < at {
        assert(items[place].item_id != item_id);
    }
}

/// An item that is pinned goes to the very front; the others keep their order.
/// The request that leads there is the opposite of what the item is now.
pub proof fn law_pinned_item_goes_to_the_front(model: HistoryModel, item_id: u64, at: int)
    requires
        is_first_of(model.all_items, at, item_id),
    ensures
        model.next_pinned(item_id) == Some(!model.all_items[at].pinned),
        model.after_pinned(item_id, true).all_items == seq![
            ItemModel { pinned: true, ..model.all_items[at] },
        ] + model.all_items.remove(at),
{
    lemma_first_of(model.all_items, at, item_id);
    assert(model.after_pinned(item_id, true).all_items =~= seq![
        ItemModel { pinned: true, ..model.all_items[at] },
    ] + model.all_items.remove(at));
}

/// An item that is unpinned goes right behind the pinned items that stand in
/// front; the others keep their order.
pub proof fn law_unpinned_item_goes_behind_the_pinned(
    model: HistoryModel,
    item_id: u64,
    at: int,
    front: Seq<ItemModel>,
    rest: Seq<ItemModel>,
)
    requires
        is_first_of(model.all_items, at, item_id),
        model.all_items.remove(at) == front + rest,
        forall|i: int| 0 <= i < front.len() ==> (#[trigger] front[i]).pinned,
        rest.len() > 0 ==> !rest[0].pinned,
    ensures
        model.after_pinned(item_id, false).all_items == front + seq![
            ItemModel { pinned: false, ..model.all_items[at] },
        ] + rest,
{
    lemma_first_of(model.all_items, at, item_id);
    let others = model.all_items.remove(at);
    lemma_first_unpinned(others);
    let target = first_unpinned(others);
    if target < front.len() {
        assert(others[target] == front[target]);
    }
    if target > front.len() {
        assert(others[front.len() as int] == rest[0]);
    }
    assert(model.after_pinned(item_id, false).all_items =~= front + seq![
        ItemModel { pinned: false, ..model.all_items[at] },
    ] + rest);
}

/// What is not in the history cannot be pinned or deleted, and nothing changes.
pub proof fn law_unknown_items_change_nothing(model: HistoryModel, item_id: u64, pinned: bool)
    requires
        forall|j: int|
            0 <= j < model.all_items.len() ==> (#[trigger] model.all_items[j]).item_id != item_id,
    ensures
        model.next_pinned(item_id) is None,
        model.after_pinned(item_id, pinned) == model,
        model.after_delete(item_id) == model,
{
    lemma_place(model.all_items, item_id);
}

/// A deletion takes one item out of the history, the first of its number, and
/// touches nothing else.
pub proof fn law_deletion_takes_one_item(model: HistoryModel, item_id: u64, at: int)
    requires
        is_first_of(model.all_items, at, item_id),
    ensures
        model.after_delete(item_id) == (HistoryModel {
            all_items: model.all_items.take(at) + model.all_items.skip(at + 1),
            ..model
        }),
{
    lemma_first_of(model.all_items, at, item_id);
    assert(model.after_delete(item_id).all_items =~= model.all_items.take(at)
        + model.all_items.skip(at + 1));
}

/// The row of an index is that of the item with this index in what is shown, and
/// the row of an item is the first in which it is shown.
pub proof fn law_rows_are_those_of_the_shown_items(model: HistoryModel, index: i32, item_id: u64)
    ensures
        0 <= index < model.items.len() ==> model.item_of_row(index) == Some(
            model.items[index as int].item_id,
        ),
        !(0 <= index < model.items.len()) ==> model.item_of_row(index) is None,
        is_first_of(model.items, index as int, item_id) ==> model.row_of_item(item_id) == Some(
            (RowChoice { index: index as usize, focus: true }),
        ),
        (forall|j: int| 0 <= j < model.items.len() ==> (#[trigger] model.items[j]).item_id
            != item_id) ==> model.row_of_item(item_id) == model.first_row(true),
{
    lemma_place(model.items, item_id);
    if is_first_of(model.items, index as int, item_id) {
        lemma_first_of(model.items, index as int, item_id);
    }
}

/// From a row the selection goes one row down or up, and at the ends it stays, or
/// goes to the first row if the list wraps. With nothing selected it goes to the
/// first row.
pub proof fn law_selection_moves_by_one(model: HistoryModel, current: i32, wrap: bool)
    requires
        0 <= current < model.items.len(),
    ensures
        model.next_row(Some(current), wrap) == (if current + 1 < model.items.len() {
            Some(RowChoice { index: (current + 1) as usize, focus: true })
        } else if wrap {
            Some(RowChoice { index: 0, focus: true })
        } else {
            None
        }),
        model.previous_row(Some(current), wrap) == (if current > 0 {
            Some(RowChoice { index: (current - 1) as usize, focus: true })
        } else if wrap {
            Some(RowChoice { index: 0, focus: true })
        } else {
            None
        }),
        model.next_row(None, wrap) == Some(RowChoice { index: 0, focus: true }),
        model.previous_row(None, wrap) == Some(RowChoice { index: 0, focus: true }),
        model.first_row(true) == Some(RowChoice { index: 0, focus: true }),
        model.first_row(false) == Some(RowChoice { index: 0, focus: false }),
{
}

/// An empty list has no row to select first.
pub proof fn law_empty_list_has_nothing_to_select(model: HistoryModel, wrap: bool, focus: bool)
    requires
        model.items.len() == 0,
    ensures
        model.first_row(focus) is None,
        model.next_row(None, wrap) is None,
        model.previous_row(None, wrap) is None,
        model.placeholder() != Placeholder::NotNeeded,
        model.placeholder().text() is Some,
{
}

/// A list with items has no placeholder. Without items it says that there is no
/// history if nothing is searched for, and that nothing was found otherwise.
pub proof fn law_placeholder_tells_why_nothing_is_shown(model: HistoryModel)
    ensures
        model.placeholder() == Placeholder::NotNeeded <==> model.items.len() > 0,
        model.placeholder() == Placeholder::NoHistory <==> model.items.len() == 0
            && crate::text::lowercase(crate::text::trimmed(model.search_query)).len() == 0,
        model.placeholder().text() is None <==> model.items.len() > 0,
        model.row_count() >= 1,
        model.items.len() > 0 ==> model.row_count() == model.items.len(),
{
}

/// The neighbour of a row is chosen wherever the list has one, and be it the row of
/// the placeholder; where it has none, the first item is chosen if the list wraps and
/// has items, and nothing otherwise.
pub proof fn law_neighbour_is_chosen_if_there_is_one(model: HistoryModel, selected: i32, wrap: bool)
    ensures
        ({
            let rows = if model.items.len() == 0 {
                1
            } else {
                model.items.len() as int
            };
            let other = if wrap && model.items.len() > 0 {
                Some(RowChoice { index: 0, focus: true })
            } else {
                None
            };
            &&& model.next_row(Some(selected), wrap) == if -1 <= selected && selected + 1 < rows {
                Some(RowChoice { index: (selected + 1) as usize, focus: true })
            } else {
                other
            }
            &&& model.previous_row(Some(selected), wrap) == if 1 <= selected <= rows {
                Some(RowChoice { index: (selected - 1) as usize, focus: true })
            } else {
                other
            }
        }),
{
}

} // verus!
