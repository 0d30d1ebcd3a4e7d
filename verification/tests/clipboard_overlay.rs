use cursor_clip::config::UserConfig;
use cursor_clip::fixed::Fixed;
use cursor_clip::history::{
    item_matches_query, lowered_matches_query, ClipboardContentType, ClipboardItemPreview,
    ContentClass, HistoryListState, Placeholder, RowChoice,
};
use cursor_clip::overlay::{
    choose_history, wants_history, Effect, Key, KeyContext, Overlay, Propagation,
};
use cursor_clip::placement::{Margins, OverlayGeometry};
use cursor_clip::row::{
    find_button_in_row, find_buttons_in_rows, format_timestamp, generate_listboxrow_from_preview,
    HeaderWidget, RowContent, WidgetMark, WidgetPath,
};

fn item(item_id: u64, preview: &str, pinned: bool) -> ClipboardItemPreview {
    ClipboardItemPreview {
        item_id,
        content_type: ClipboardContentType {
            class: ContentClass::Other,
            name: "Text".to_string(),
            icon: "T".to_string(),
        },
        content_preview: preview.to_string(),
        timestamp: 1000,
        pinned,
        thumbnail: None,
    }
}

fn four_items() -> Vec<ClipboardItemPreview> {
    vec![item(4, "Delta", true), item(3, "gamma", false), item(2, "Beta", false), item(1, "alpha", false)]
}

fn ids(items: &Vec<ClipboardItemPreview>) -> Vec<u64> {
    items.iter().map(|i| i.item_id).collect()
}

fn settings() -> UserConfig {
    UserConfig::default()
}

fn overlay() -> Overlay {
    Overlay::open(settings(), four_items()).0
}

fn list(selected: Option<i32>) -> KeyContext {
    KeyContext { search_revealed: false, search_focused: false, selected }
}

fn searching(selected: Option<i32>) -> KeyContext {
    KeyContext { search_revealed: true, search_focused: true, selected }
}

fn row(index: usize) -> Option<RowChoice> {
    Some(RowChoice { index, focus: true })
}

#[test]
fn a_search_ignores_case_and_surrounding_space() {
    let mut state = HistoryListState::new(four_items(), true, true);
    assert_eq!(state.rebuild_list(), Placeholder::NotNeeded);
    assert_eq!(ids(&state.items), vec![4, 3, 2, 1]);
    state.search_query = "  TA ".to_string();
    assert_eq!(state.rebuild_list(), Placeholder::NotNeeded);
    assert_eq!(ids(&state.items), vec![4, 2]);
    state.search_query = "text".to_string();
    state.rebuild_list();
    assert_eq!(ids(&state.items), vec![4, 3, 2, 1]);
    state.search_query = "nothing".to_string();
    assert_eq!(state.rebuild_list(), Placeholder::NoMatches);
    assert!(state.items.is_empty());
    state.search_query = " \t ".to_string();
    assert_eq!(state.rebuild_list(), Placeholder::NotNeeded);
    assert_eq!(ids(&state.items), vec![4, 3, 2, 1]);
}

#[test]
fn an_empty_list_has_a_placeholder() {
    let mut state = HistoryListState::new(Vec::new(), true, true);
    assert_eq!(state.rebuild_list(), Placeholder::NoHistory);
    assert_eq!(Placeholder::NoHistory.message(), Some("No clipboard history yet".to_string()));
    assert_eq!(Placeholder::NoMatches.message(), Some("No matches found".to_string()));
    assert_eq!(Placeholder::NotNeeded.message(), None);
    assert_eq!(state.select_first_row(), None);
    assert_eq!(state.select_next_row(None, true), None);
    assert_eq!(state.select_row_by_item_id(1), None);
}

#[test]
fn the_preview_or_the_type_has_to_match() {
    assert!(item_matches_query(&item(1, "ÄPFEL", false), "äpfel"));
    assert!(item_matches_query(&item(1, "x", false), ""));
    assert!(item_matches_query(&item(1, "x", false), "ext"));
    assert!(!item_matches_query(&item(1, "x", false), "y"));
    assert!(!item_matches_query(&item(1, "x", false), "X"));
    assert!(lowered_matches_query("abc", "code", "od"));
    assert!(!lowered_matches_query("abc", "code", "abcd"));
}

#[test]
fn pinning_moves_an_item_to_the_front() {
    let mut state = HistoryListState::new(four_items(), true, true);
    assert_eq!(state.next_pinned_state(2), Some(true));
    state.apply_pinned_state(2, true);
    assert_eq!(ids(&state.all_items), vec![2, 4, 3, 1]);
    assert_eq!(state.next_pinned_state(2), Some(false));
    state.apply_pinned_state(4, false);
    assert_eq!(ids(&state.all_items), vec![2, 4, 3, 1]);
    assert!(!state.all_items[1].pinned);
    state.apply_pinned_state(2, false);
    assert_eq!(ids(&state.all_items), vec![2, 4, 3, 1]);
    assert!(state.all_items.iter().all(|i| !i.pinned));
    state.apply_pinned_state(1, true);
    state.apply_pinned_state(1, false);
    assert_eq!(ids(&state.all_items), vec![1, 2, 4, 3]);
    state.apply_pinned_state(99, true);
    assert_eq!(ids(&state.all_items), vec![1, 2, 4, 3]);
    assert_eq!(state.next_pinned_state(99), None);
}

#[test]
fn unpinning_among_pinned_items_goes_behind_them() {
    let items = vec![item(1, "a", true), item(2, "b", true), item(3, "c", true)];
    let mut state = HistoryListState::new(items, true, true);
    state.apply_pinned_state(1, false);
    assert_eq!(ids(&state.all_items), vec![2, 3, 1]);
}

#[test]
fn a_deleted_item_is_gone() {
    let mut state = HistoryListState::new(four_items(), true, true);
    state.delete_item(3);
    assert_eq!(ids(&state.all_items), vec![4, 2, 1]);
    state.delete_item(3);
    assert_eq!(ids(&state.all_items), vec![4, 2, 1]);
}

#[test]
fn rows_are_selected_up_and_down() {
    let mut state = HistoryListState::new(four_items(), true, true);
    state.rebuild_list();
    assert_eq!(state.select_first_row(), row(0));
    assert_eq!(state.select_first_row_without_focus(), Some(RowChoice { index: 0, focus: false }));
    assert_eq!(state.select_next_row(None, false), row(0));
    assert_eq!(state.select_next_row(Some(0), false), row(1));
    assert_eq!(state.select_next_row(Some(3), false), None);
    assert_eq!(state.select_next_row(Some(3), true), row(0));
    assert_eq!(state.select_previous_row(Some(1), false), row(0));
    assert_eq!(state.select_previous_row(Some(0), false), None);
    assert_eq!(state.select_previous_row(Some(0), true), row(0));
    assert_eq!(state.select_previous_row(None, false), row(0));
    assert_eq!(state.select_row_by_item_id(2), row(2));
    assert_eq!(state.select_row_by_item_id(77), row(0));
    assert_eq!(state.item_at_row(1), Some(3));
    assert_eq!(state.item_at_row(4), None);
    assert_eq!(state.item_at_row(-1), None);
}

#[test]
fn copies_keep_every_field() {
    let mut source = item(8, "x", true);
    source.thumbnail = Some(vec![1, 2, 3]);
    let copy = source.copied();
    assert_eq!(copy.item_id, 8);
    assert_eq!(copy.thumbnail, Some(vec![1, 2, 3]));
    assert_eq!(copy.content_type.icon, "T");
    assert_eq!((copy.timestamp, copy.pinned), (1000, true));
}

#[test]
fn times_are_relative() {
    let now = 1_000_000;
    let ago = |seconds: u64| format_timestamp(now, now - seconds);
    assert_eq!(format_timestamp(now, now + 50), "Just now");
    assert_eq!(ago(0), "Just now");
    assert_eq!(ago(29), "Just now");
    assert_eq!(ago(30), "0 minutes ago");
    assert_eq!(ago(60), "1 minute ago");
    assert_eq!(ago(119), "1 minute ago");
    assert_eq!(ago(120), "2 minutes ago");
    assert_eq!(ago(3599), "59 minutes ago");
    assert_eq!(ago(3600), "1 hour ago");
    assert_eq!(ago(86399), "23 hours ago");
    assert_eq!(ago(86400), "1 day ago");
    assert_eq!(ago(172800), "2 days ago");
    assert_eq!(format_timestamp(u64::MAX, 0), "213503982334601 days ago");
}

#[test]
fn a_row_shows_its_item() {
    let mut code = item(5, "fn main() {}", true);
    code.content_type.class = ContentClass::Code;
    let view = generate_listboxrow_from_preview(&code, 1060, true, false, true);
    assert_eq!((view.icon.as_str(), view.kind_name.as_str()), ("T", "Text"));
    assert_eq!(view.time, "1 minute ago");
    assert_eq!(view.pin_tooltip, "Unpin");
    assert!(view.pinned && view.show_trash && !view.show_pin);
    assert!(matches!(view.content, RowContent::Text { text, monospace: true } if text == "fn main() {}"));
    let mut picture = item(6, "png", false);
    picture.thumbnail = Some(vec![0]);
    let view = generate_listboxrow_from_preview(&picture, 1000, true, true, true);
    assert!(matches!(view.content, RowContent::Picture));
    assert_eq!(view.pin_tooltip, "Pin");
    let view = generate_listboxrow_from_preview(&picture, 1000, true, true, false);
    assert!(matches!(view.content, RowContent::Text { monospace: false, .. }));
}

fn widget(marked: bool, button: bool) -> WidgetMark {
    WidgetMark { marked, button }
}

#[test]
fn a_button_is_found_one_level_deep() {
    let plain = || HeaderWidget { mark: widget(false, false), children: None };
    let boxed = |children: Vec<WidgetMark>| HeaderWidget { mark: widget(false, false), children: Some(children) };
    let header = vec![plain(), boxed(vec![widget(false, true), widget(true, true)])];
    assert_eq!(find_button_in_row(&header), Some(WidgetPath::Nested(1, 1)));
    let top = vec![HeaderWidget { mark: widget(true, true), children: None }, boxed(vec![widget(true, true)])];
    assert_eq!(find_button_in_row(&top), Some(WidgetPath::Top(0)));
    let no_button = vec![boxed(vec![widget(true, false)]), boxed(vec![widget(true, true)])];
    assert_eq!(find_button_in_row(&no_button), None);
    assert_eq!(find_button_in_row(&vec![plain()]), None);
    let rows = vec![Some(vec![plain()]), None, Some(header), Some(top)];
    assert_eq!(
        find_buttons_in_rows(&rows),
        vec![(2, WidgetPath::Nested(1, 1)), (3, WidgetPath::Top(0))]
    );
}

#[test]
fn opening_the_overlay_shows_the_history() {
    let config = UserConfig { show_trash: false, persistence_enabled: true, ..settings() };
    let (overlay, effects) = Overlay::open(config, four_items());
    assert_eq!(ids(&overlay.history.items), vec![4, 3, 2, 1]);
    assert!(!overlay.history.show_trash && overlay.history.show_pin);
    assert_eq!(Overlay::announce(config), vec![Effect::SetPersistence(true)]);
    assert_eq!(
        effects,
        vec![
            Effect::Rebuild(Placeholder::NotNeeded),
            Effect::SelectFirst { focus: true },
            Effect::ShowDeleteButtons(false),
            Effect::ShowPinIcons(true),
        ]
    );
    let (_, effects) = Overlay::open(settings(), Vec::new());
    assert_eq!(effects[0], Effect::Rebuild(Placeholder::NoHistory));
}

#[test]
fn a_history_is_fetched_on_demand_only_if_there_is_none() {
    assert!(wants_history(&Vec::new()));
    assert!(!wants_history(&four_items()));
    assert_eq!(ids(&choose_history(four_items(), Some(vec![item(9, "x", false)]))), vec![4, 3, 2, 1]);
    assert_eq!(ids(&choose_history(Vec::new(), Some(vec![item(9, "x", false)]))), vec![9]);
    assert!(choose_history(Vec::new(), None).is_empty());
}

#[test]
fn keys_move_the_selection() {
    let o = overlay();
    let reaction = o.on_key(Key::J, list(Some(1)));
    assert_eq!(reaction.effects, vec![Effect::SelectNext { wrap: false }]);
    assert_eq!(reaction.propagation, Propagation::Stop);
    assert_eq!(o.row_choice(reaction.effects[0], Some(1)), row(2));
    assert_eq!(o.row_choice(reaction.effects[0], Some(3)), None);
    let reaction = o.on_key(Key::Up, list(Some(1)));
    assert_eq!(reaction.effects, vec![Effect::SelectPrevious { wrap: false }]);
    assert_eq!(o.row_choice(reaction.effects[0], Some(1)), row(0));
    let reaction = o.on_key(Key::Down, searching(Some(1)));
    assert_eq!(reaction.effects, vec![Effect::FocusList, Effect::SelectNext { wrap: false }]);
    let reaction = o.on_key(Key::K, list(None));
    assert_eq!(reaction.effects, vec![Effect::SelectPrevious { wrap: false }]);
    assert_eq!(o.row_choice(Effect::Quit, Some(1)), None);
    assert_eq!(o.row_choice(Effect::SelectItem(1), None), row(3));
}

#[test]
fn escape_leaves_the_search_first() {
    let o = overlay();
    assert_eq!(o.on_key(Key::Escape, searching(Some(0))).effects, vec![Effect::FocusList]);
    assert_eq!(
        o.on_key(Key::Escape, searching(None)).effects,
        vec![Effect::SelectFirst { focus: true }]
    );
    let hidden = KeyContext { search_revealed: false, ..searching(None) };
    assert_eq!(o.on_key(Key::Escape, hidden).effects, vec![Effect::Quit]);
    let reaction = o.on_key(Key::Escape, list(Some(0)));
    assert_eq!(reaction.effects, vec![Effect::Quit]);
    assert_eq!(reaction.propagation, Propagation::Stop);
}

#[test]
fn typing_in_the_search_field_stays_there() {
    let o = overlay();
    for key in [Key::Slash, Key::J, Key::K, Key::P, Key::U, Key::Delete, Key::Other] {
        let reaction = o.on_key(key, searching(Some(0)));
        assert!(reaction.effects.is_empty());
        assert_eq!(reaction.propagation, Propagation::Proceed);
    }
}

#[test]
fn a_slash_opens_the_search() {
    let reaction = overlay().on_key(Key::Slash, list(None));
    assert_eq!(reaction.effects, vec![Effect::ShowSearch(true), Effect::FocusSearch]);
    assert_eq!(reaction.propagation, Propagation::Stop);
}

#[test]
fn enter_activates_the_selected_row() {
    let o = overlay();
    assert_eq!(o.on_key(Key::Enter, list(Some(0))).effects, vec![Effect::ActivateSelected]);
    assert_eq!(o.on_key(Key::Enter, list(None)).propagation, Propagation::Proceed);
    assert_eq!(
        o.on_row_activated(2),
        vec![Effect::SetClipboard { item_id: 2, instant_paste: true }]
    );
    assert!(o.on_row_activated(9).is_empty());
    assert_eq!(o.on_closing_answer(true), vec![Effect::Quit]);
    assert!(o.on_closing_answer(false).is_empty());
}

#[test]
fn delete_asks_the_backend_before_anything_changes() {
    let mut o = overlay();
    let reaction = o.on_key(Key::Delete, list(Some(1)));
    assert_eq!(reaction.effects, vec![Effect::DeleteItem(3)]);
    assert_eq!(o.on_delete_clicked(3), vec![Effect::DeleteItem(3)]);
    assert!(o.on_delete_answer(3, false).is_empty());
    assert_eq!(ids(&o.history.items), vec![4, 3, 2, 1]);
    assert_eq!(
        o.on_delete_answer(3, true),
        vec![Effect::Rebuild(Placeholder::NotNeeded), Effect::SelectFirst { focus: true }]
    );
    assert_eq!(ids(&o.history.items), vec![4, 2, 1]);
    let out_of_range = o.on_key(Key::Delete, list(Some(7)));
    assert!(out_of_range.effects.is_empty());
    assert_eq!(out_of_range.propagation, Propagation::Stop);
    assert_eq!(o.on_key(Key::Delete, list(None)).propagation, Propagation::Proceed);
}

#[test]
fn pinning_asks_the_backend_before_anything_changes() {
    let mut o = overlay();
    assert_eq!(
        o.on_key(Key::P, list(Some(3))).effects,
        vec![Effect::SetPinned { item_id: 1, pinned: true }]
    );
    assert_eq!(o.on_pin_clicked(4), vec![Effect::SetPinned { item_id: 4, pinned: false }]);
    assert!(o.on_pin_clicked(77).is_empty());
    assert!(o.on_pin_answer(1, true, false).is_empty());
    assert_eq!(ids(&o.history.items), vec![4, 3, 2, 1]);
    assert_eq!(
        o.on_pin_answer(1, true, true),
        vec![Effect::Rebuild(Placeholder::NotNeeded), Effect::SelectItem(1)]
    );
    assert_eq!(ids(&o.history.items), vec![1, 4, 3, 2]);
    assert_eq!(o.row_choice(Effect::SelectItem(1), None), row(0));
    assert_eq!(o.on_key(Key::P, list(Some(9))).propagation, Propagation::Stop);
    assert_eq!(o.on_key(Key::P, list(None)).propagation, Propagation::Proceed);
}

#[test]
fn the_search_field_has_keys_of_its_own() {
    let o = overlay();
    let reaction = o.on_search_key(Key::U, true, 3, None);
    assert_eq!(reaction.effects, vec![Effect::DeleteSearchText(3)]);
    assert_eq!(reaction.propagation, Propagation::Stop);
    assert_eq!(o.on_search_key(Key::U, true, 0, None).propagation, Propagation::Proceed);
    assert_eq!(o.on_search_key(Key::U, false, 3, None).propagation, Propagation::Proceed);
    let down = o.on_search_key(Key::Down, false, 0, Some(3));
    assert_eq!(down.effects, vec![Effect::Select(RowChoice { index: 0, focus: true })]);
    let up = o.on_search_key(Key::Up, false, 0, Some(2));
    assert_eq!(up.effects, vec![Effect::Select(RowChoice { index: 1, focus: true })]);
    assert_eq!(o.on_search_key(Key::Other, false, 0, Some(2)).propagation, Propagation::Proceed);
    let empty = Overlay::open(settings(), Vec::new()).0;
    assert_eq!(empty.on_search_key(Key::Down, false, 0, None).propagation, Propagation::Proceed);
}

#[test]
fn typing_filters_the_list() {
    let mut o = overlay();
    assert_eq!(
        o.on_search_changed("ALPHA".to_string()),
        vec![Effect::Rebuild(Placeholder::NotNeeded), Effect::SelectFirst { focus: false }]
    );
    assert_eq!(ids(&o.history.items), vec![1]);
    assert_eq!(o.on_search_changed("zzz".to_string())[0], Effect::Rebuild(Placeholder::NoMatches));
    assert_eq!(o.on_search_changed(" \t".to_string())[0], Effect::Rebuild(Placeholder::NotNeeded));
    assert_eq!(ids(&o.history.items), vec![4, 3, 2, 1]);
    let mut single = Overlay::open(settings(), vec![item(1, "only", false)]).0;
    assert_eq!(single.on_delete_answer(1, true)[0], Effect::Rebuild(Placeholder::NoHistory));
    let mut searched = Overlay::open(settings(), vec![item(1, "only", false)]).0;
    searched.on_search_changed("only".to_string());
    assert_eq!(searched.on_delete_answer(1, true)[0], Effect::Rebuild(Placeholder::NoMatches));
    assert_eq!(Overlay::on_search_activate(Some(0)), vec![Effect::ActivateSelected]);
    assert!(Overlay::on_search_activate(None).is_empty());
    assert_eq!(Overlay::on_stop_search(Some(0)), vec![Effect::FocusList]);
    assert_eq!(Overlay::on_stop_search(None), vec![Effect::SelectFirst { focus: true }]);
}

#[test]
fn buttons_show_and_hide() {
    assert_eq!(
        Overlay::on_search_button(false),
        vec![Effect::ShowSearch(true), Effect::FocusSearch, Effect::SelectSearchText]
    );
    assert_eq!(Overlay::on_search_button(true), vec![Effect::ShowSearch(false)]);
    assert_eq!(Overlay::on_menu_button(false), vec![Effect::ShowMenu(true)]);
    assert_eq!(Overlay::on_menu_button(true), vec![Effect::ShowMenu(false)]);
    assert_eq!(Overlay::on_clear_button(), vec![Effect::ClearHistory]);
    assert_eq!(Overlay::on_close(), vec![Effect::Quit]);
}

#[test]
fn settings_are_saved_before_they_show() {
    let mut o = overlay();
    assert_eq!(o.on_toggle_trash(false), vec![Effect::SaveConfig, Effect::ShowDeleteButtons(false)]);
    assert_eq!(o.on_toggle_pin(false), vec![Effect::SaveConfig, Effect::ShowPinIcons(false)]);
    assert_eq!(o.on_toggle_persistence(true), vec![Effect::SaveConfig, Effect::SetPersistence(true)]);
    assert_eq!(o.on_toggle_instant_paste(false), vec![Effect::SaveConfig]);
    assert_eq!(
        o.config,
        UserConfig { show_trash: false, show_pin: false, persistence_enabled: true, instant_paste: false }
    );
    assert!(!o.history.show_trash && !o.history.show_pin);
    assert_eq!(
        o.on_row_activated(0),
        vec![Effect::SetClipboard { item_id: 4, instant_paste: false }]
    );
}

fn geometry(x: i32, y: i32) -> OverlayGeometry {
    OverlayGeometry {
        x: Fixed { raw: x },
        y: Fixed { raw: y },
        overlay_width: 400,
        overlay_height: 300,
        monitor_width: 1920,
        monitor_height: 1080,
    }
}

#[test]
fn the_overlay_opens_at_the_pointer() {
    let g = geometry(100 * 256 + 200, 50 * 256 + 10);
    assert_eq!(g.initial_margins(), Margins { top: 50, left: 100 });
    assert_eq!(g.mapped_margins(10, 10), Some(Margins { top: 50, left: 100 }));
}

#[test]
fn the_overlay_is_kept_on_the_screen() {
    assert_eq!(geometry(0, 0).mapped_margins(0, 0), Some(Margins { top: 5, left: 5 }));
    assert_eq!(
        geometry(1900 * 256, 1070 * 256).mapped_margins(0, 0),
        Some(Margins { top: 1080 - 300 - 5, left: 1920 - 400 - 5 })
    );
    assert_eq!(
        geometry(1900 * 256, 1070 * 256).mapped_margins(500, 2000),
        Some(Margins { top: 5, left: 1920 - 500 - 5 })
    );
    let unknown = OverlayGeometry { monitor_width: 0, ..geometry(0, 0) };
    assert_eq!(unknown.mapped_margins(0, 0), None);
    assert_eq!(unknown.initial_margins(), Margins { top: 0, left: 0 });
}

#[test]
fn placing_agrees_with_floating_point() {
    for raw in [-70000, -1, 0, 1279, 1280, 1281, 25600, 387839, 387840, 387841, 500000] {
        for (monitor, window) in [(1920, 400), (1920, 1910), (1920, 1911), (300, 400), (1, 1)] {
            let g = OverlayGeometry {
                overlay_width: window,
                monitor_width: monitor,
                ..geometry(raw, 0)
            };
            let margin = 5.0f64;
            let max = (monitor as f64 - window as f64 - margin).max(margin);
            let expected = (raw as f64 / 256.0).clamp(margin, max) as i32;
            assert_eq!(g.mapped_margins(0, 0).unwrap().left, expected);
        }
    }
}
