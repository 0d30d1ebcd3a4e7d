//! The inspector's report: the window under the pointer, and a table of all
//! windows.

use vstd::prelude::*;
use vstd::string::*;

use crate::fixed::Geometry;
use crate::inspect::{
    AppModel, AppState, Window, WindowModel, STATE_ACTIVATED, STATE_FULLSCREEN, STATE_MAXIMIZED,
    STATE_MINIMIZED, STATE_STICKY,
};
use crate::text::{
    append_decimal, append_padded, append_repeated, append_signed, is_text_le,
};

verus! {

/// A list with a label added to it, if the label applies.
pub open spec fn with_label(list: Seq<char>, applies: bool, label: Seq<char>) -> Seq<char> {
    if !applies {
        list
    } else if list.len() == 0 {
        label
    } else {
        list + ", "@ + label
    }
}

/// The names of the states that a window is in, with commas between them.
pub open spec fn state_list(states: Seq<u32>) -> Seq<char> {
    let list = with_label(seq![], states.contains(STATE_ACTIVATED), "activated"@);
    let list = with_label(list, states.contains(STATE_MAXIMIZED), "maximized"@);
    let list = with_label(list, states.contains(STATE_MINIMIZED), "minimized"@);
    let list = with_label(list, states.contains(STATE_FULLSCREEN), "fullscreen"@);
    with_label(list, states.contains(STATE_STICKY), "sticky"@)
}

/// The states of a window in words.
pub open spec fn state_text(states: Seq<u32>) -> Seq<char> {
    if state_list(states).len() == 0 {
        "(none)"@
    } else {
        state_list(states)
    }
}

fn append_label(list: &mut String, applies: bool, label: &str)
    ensures
        final(list)@ == with_label(old(list)@, applies, label@),
{
    if applies {
        if !list.as_str().is_empty() {
            list.append(", ");
            list.append(label);
        } else {
            list.append(label);
            assert(list@ =~= label@);
        }
    }
}

impl Window {
    /// The states of the window in words.
    pub fn state_labels(&self) -> (labels: String)
        ensures
            labels@ == state_text(self@.states),
    {
        let mut list = String::new();
        append_label(&mut list, self.has_state(STATE_ACTIVATED), "activated");
        append_label(&mut list, self.has_state(STATE_MAXIMIZED), "maximized");
        append_label(&mut list, self.has_state(STATE_MINIMIZED), "minimized");
        append_label(&mut list, self.has_state(STATE_FULLSCREEN), "fullscreen");
        append_label(&mut list, self.has_state(STATE_STICKY), "sticky");
        if list.as_str().is_empty() {
            "(none)".to_owned()
        } else {
            list
        }
    }
}

/// A text, or a word for not knowing it.
pub open spec fn known(text: Option<Seq<char>>) -> Seq<char> {
    match text {
        Some(t) => t,
        None => "(unknown)"@,
    }
}

fn known_str(text: &Option<String>) -> (s: &str)
    ensures
        s@ == known(crate::text::opt_text(*text)),
{
    match text {
        Some(t) => t.as_str(),
        None => "(unknown)",
    }
}

/// A rectangle in words: its size and its place.
pub open spec fn geometry_text(geometry: Option<Geometry>) -> Seq<char> {
    match geometry {
        Some(g) => crate::text::decimal_int(g.width as int) + "x"@ + crate::text::decimal_int(
            g.height as int,
        ) + " at ("@ + crate::text::decimal_int(g.x as int) + ", "@ + crate::text::decimal_int(
            g.y as int,
        ) + ")"@,
        None => "(unknown)"@,
    }
}

/// Puts a rectangle into words.
pub fn describe_geometry(geometry: &Option<Geometry>) -> (text: String)
    ensures
        text@ == geometry_text(*geometry),
{
    match geometry {
        Some(g) => {
            let mut text = String::new();
            append_signed(&mut text, g.width as i64);
            assert(text@ =~= crate::text::decimal_int(g.width as int));
            text.append("x");
            append_signed(&mut text, g.height as i64);
            text.append(" at (");
            append_signed(&mut text, g.x as i64);
            text.append(", ");
            append_signed(&mut text, g.y as i64);
            text.append(")");
            text
        },
        None => "(unknown)".to_owned(),
    }
}

/// Whether an application's name comes before or at the same place as another.
/// A name that is not known comes first.
pub open spec fn app_le(a: Option<Seq<char>>, b: Option<Seq<char>>) -> bool {
    match (a, b) {
        (None, _) => true,
        (Some(_), None) => false,
        (Some(x), Some(y)) => crate::text::text_le(x, y),
    }
}

fn is_app_le(a: &Option<String>, b: &Option<String>) -> (r: bool)
    ensures
        r == app_le(crate::text::opt_text(*a), crate::text::opt_text(*b)),
{
    match (a, b) {
        (None, _) => true,
        (Some(_), None) => false,
        (Some(x), Some(y)) => is_text_le(x.as_str(), y.as_str()),
    }
}

/// A sorted list with one more window in it, behind those that come before it or
/// at the same place.
pub open spec fn inserted(list: Seq<WindowModel>, window: WindowModel) -> Seq<WindowModel>
    decreases list.len(),
{
    if list.len() == 0 || app_le(list.last().app_id, window.app_id) {
        list.push(window)
    } else {
        inserted(list.drop_last(), window).push(list.last())
    }
}

/// The windows sorted by application; windows of one application keep their
/// order.
pub open spec fn sorted_by_app(windows: Seq<WindowModel>) -> Seq<WindowModel>
    decreases windows.len(),
{
    if windows.len() == 0 {
        seq![]
    } else {
        inserted(sorted_by_app(windows.drop_last()), windows.last())
    }
}

/// The windows of the inspector, without their handles.
pub open spec fn plain_windows(model: AppModel) -> Seq<WindowModel> {
    Seq::new(model.windows.len(), |i: int| model.windows[i].1)
}

/// The number of bytes that the widest of some cells takes up, and at least that
/// of the column's title.
pub open spec fn column_width(title: Seq<char>, cells: Seq<Seq<char>>) -> usize
    decreases cells.len(),
{
    if cells.len() == 0 {
        crate::text::byte_len(title)
    } else {
        let width = column_width(title, cells.drop_last());
        let last = crate::text::byte_len(cells.last());
        if last > width {
            last
        } else {
            width
        }
    }
}

/// The cells of the table's columns.
pub open spec fn app_cells(windows: Seq<WindowModel>) -> Seq<Seq<char>> {
    Seq::new(windows.len(), |i: int| known(windows[i].app_id))
}

pub open spec fn title_cells(windows: Seq<WindowModel>) -> Seq<Seq<char>> {
    Seq::new(windows.len(), |i: int| known(windows[i].title))
}

pub open spec fn geometry_cells(windows: Seq<WindowModel>) -> Seq<Seq<char>> {
    Seq::new(windows.len(), |i: int| geometry_text(windows[i].geometry))
}

/// The first two lines of the table.
pub open spec fn table_head(app_w: usize, title_w: usize, geom_w: usize) -> Seq<char> {
    "    "@ + crate::text::padded("app_id"@, app_w as nat) + "  "@ + crate::text::padded(
        "title"@,
        title_w as nat,
    ) + "  "@ + crate::text::padded("geometry"@, geom_w as nat) + "\n"@ + "    "@
        + crate::text::repeated("-"@, app_w as nat) + "  "@ + crate::text::repeated(
        "-"@,
        title_w as nat,
    ) + "  "@ + crate::text::repeated("-"@, geom_w as nat) + "\n"@
}

/// The line of one window.
pub open spec fn table_row(window: WindowModel, app_w: usize, title_w: usize) -> Seq<char> {
    "    "@ + crate::text::padded(known(window.app_id), app_w as nat) + "  "@
        + crate::text::padded(known(window.title), title_w as nat) + "  "@ + geometry_text(
        window.geometry,
    ) + "\n"@
}

/// The lines of some windows, one below the other.
pub open spec fn table_rows(windows: Seq<WindowModel>, app_w: usize, title_w: usize) -> Seq<char>
    decreases windows.len(),
{
    if windows.len() == 0 {
        seq![]
    } else {
        table_rows(windows.drop_last(), app_w, title_w) + table_row(
            windows.last(),
            app_w,
            title_w,
        )
    }
}

/// The table of the windows, which stand in this order.
pub open spec fn table_text(windows: Seq<WindowModel>) -> Seq<char> {
    let app_w = column_width("app_id"@, app_cells(windows));
    let title_w = column_width("title"@, title_cells(windows));
    let geom_w = column_width("geometry"@, geometry_cells(windows));
    table_head(app_w, title_w, geom_w) + table_rows(windows, app_w, title_w)
}

/// What is reported of the window under the pointer.
pub open spec fn window_text(window: WindowModel) -> Seq<char> {
    "Window under cursor:\n    app_id     : "@ + known(window.app_id) + "\n    title      : "@
        + known(window.title) + "\n    identifier : "@ + known(window.identifier)
        + "\n    states     : "@ + state_text(window.states) + "\n    geometry   : "@
        + geometry_text(window.geometry) + "\n"@
}

/// What is reported of the pointer; `under` is the place of the window that is
/// under it.
pub open spec fn cursor_text(model: AppModel, under: Option<int>) -> Seq<char> {
    match model.cursor {
        None => "Pointer is not over the overlay (off-screen?).\n"@,
        Some((px, py)) => "Cursor at ("@ + px.text() + ", "@ + py.text() + ")\n\n"@
            + match under {
            None => "No window under the cursor.\n"@,
            Some(i) => window_text(model.windows[i].1),
        },
    }
}

/// Whether `under` is the place of the window under the pointer.
pub open spec fn is_found(model: AppModel, under: Option<int>) -> bool {
    match under {
        Some(i) => model.is_under_cursor(i),
        None => model.nothing_under_cursor(),
    }
}

/// The whole report, which clears the terminal first.
pub open spec fn report_text(model: AppModel, under: Option<int>) -> Seq<char> {
    "\u{1b}[2J\u{1b}[3J\u{1b}[H"@ + cursor_text(model, under) + "\nAll windows ("@
        + crate::text::decimal(model.windows.len()) + "):\n"@ + table_text(
        sorted_by_app(plain_windows(model)),
    ) + "\n(Press Ctrl-C to quit.)\n"@
}

/// The windows of a list in the order of some places.
pub open spec fn picked(windows: Seq<WindowModel>, order: Seq<usize>) -> Seq<WindowModel> {
    Seq::new(order.len(), |k: int| windows[order[k] as int])
}

proof fn lemma_inserted_at(list: Seq<WindowModel>, window: WindowModel, at: int)
    requires
        0 <= at <= list.len(),
        at == 0 || app_le(list[at - 1].app_id, window.app_id),
        forall|k: int|
            at <= k < list.len() ==> !app_le((#[trigger] list[k]).app_id, window.app_id),
    ensures
        inserted(list, window) == list.insert(at, window),
    decreases list.len(),
{
    if at == list.len() {
        assert(list.insert(at, window) =~= list.push(window));
    } else {
        let shorter = list.drop_last();
        assert(!app_le(list[list.len() - 1].app_id, window.app_id));
        lemma_inserted_at(shorter, window, at);
        assert(list.insert(at, window) =~= shorter.insert(at, window).push(list.last()));
    }
}

impl AppState {
    /// The places of the windows in the order of the table.
    fn table_order(&self) -> (order: Vec<usize>)
        ensures
            picked(plain_windows(self@), order@) == sorted_by_app(plain_windows(self@)),
            order@.len() == self.windows@.len(),
            forall|k: int|
                0 <= k < order@.len() ==> (#[trigger] order@[k]) < self.windows@.len(),
    {
        let ghost windows = plain_windows(self@);
        let mut order: Vec<usize> = Vec::new();
        let mut i: usize = 0;
        assert(picked(windows, order@) =~= sorted_by_app(windows.take(0)));
        while i < self.windows.len()
            invariant
                windows == plain_windows(self@),
                i <= self.windows@.len(),
                order@.len() == i,
                forall|k: int|
                    0 <= k < order@.len() ==> (#[trigger] order@[k]) < self.windows@.len(),
                picked(windows, order@) == sorted_by_app(windows.take(i as int)),
            decreases self.windows@.len() - i,
        {
            let ghost list = picked(windows, order@);
            let ghost window = windows[i as int];
            let mut at: usize = order.len();
            while at > 0 && !is_app_le(
                &self.windows[order[at - 1]].1.app_id,
                &self.windows[i].1.app_id,
            )
                invariant
                    windows == plain_windows(self@),
                    i < self.windows@.len(),
                    at <= order@.len(),
                    list == picked(windows, order@),
                    window == windows[i as int],
                    forall|k: int|
                        0 <= k < order@.len() ==> (#[trigger] order@[k]) < self.windows@.len(),
                    forall|k: int|
                        at <= k < list.len() ==> !app_le(
                            (#[trigger] list[k]).app_id,
                            window.app_id,
                        ),
                decreases at,
            {
                assert(list[at - 1].app_id == crate::text::opt_text(
                    self.windows@[order@[at - 1] as int].1.app_id,
                ));
                at = at - 1;
            }
            proof {
                if at > 0 {
                    assert(list[at - 1].app_id == crate::text::opt_text(
                        self.windows@[order@[at - 1] as int].1.app_id,
                    ));
                }
                lemma_inserted_at(list, window, at as int);
            }
            let ghost before = order@;
            order.insert(at, i);
            assert(picked(windows, order@) =~= list.insert(at as int, window));
            assert(windows.take(i + 1).drop_last() =~= windows.take(i as int));
            assert forall|k: int| 0 <= k < order@.len() implies (#[trigger] order@[k])
                < self.windows@.len() by {
                if k < at {
                    assert(order@[k] == before[k]);
                } else if k > at {
                    assert(order@[k] == before[k - 1]);
                }
            }
            i = i + 1;
        }
        assert(windows.take(i as int) =~= windows);
        order
    }

    /// The table of all windows.
    fn table(&self) -> (text: String)
        ensures
            text@ == table_text(sorted_by_app(plain_windows(self@))),
    {
        let order = self.table_order();
        let ghost windows = sorted_by_app(plain_windows(self@));
        let mut app_w: usize = "app_id".len();
        let mut title_w: usize = "title".len();
        let mut geom_w: usize = "geometry".len();
        let mut k: usize = 0;
        while k < order.len()
            invariant
                windows == picked(plain_windows(self@), order@),
                k <= order@.len(),
                forall|j: int|
                    0 <= j < order@.len() ==> (#[trigger] order@[j]) < self.windows@.len(),
                app_w == column_width("app_id"@, app_cells(windows.take(k as int))),
                title_w == column_width("title"@, title_cells(windows.take(k as int))),
                geom_w == column_width("geometry"@, geometry_cells(windows.take(k as int))),
            decreases order@.len() - k,
        {
            let window = &self.windows[order[k]].1;
            assert(windows[k as int] == window@);
            proof {
                let next = windows.take(k + 1);
                assert(app_cells(next).drop_last() =~= app_cells(windows.take(k as int)));
                assert(title_cells(next).drop_last() =~= title_cells(windows.take(k as int)));
                assert(geometry_cells(next).drop_last() =~= geometry_cells(
                    windows.take(k as int),
                ));
            }
            let app_len: usize = known_str(&window.app_id).len();
            if app_len > app_w {
                app_w = app_len;
            }
            let title_len: usize = known_str(&window.title).len();
            if title_len > title_w {
                title_w = title_len;
            }
            let geometry = describe_geometry(&window.geometry);
            let geom_len: usize = geometry.as_str().len();
            if geom_len > geom_w {
                geom_w = geom_len;
            }
            k = k + 1;
        }
        assert(windows.take(k as int) =~= windows);
        let mut text = "    ".to_owned();
        append_padded(&mut text, "app_id", app_w);
        text.append("  ");
        append_padded(&mut text, "title", title_w);
        text.append("  ");
        append_padded(&mut text, "geometry", geom_w);
        text.append("\n");
        text.append("    ");
        append_repeated(&mut text, "-", app_w);
        text.append("  ");
        append_repeated(&mut text, "-", title_w);
        text.append("  ");
        append_repeated(&mut text, "-", geom_w);
        text.append("\n");
        let ghost head = table_head(app_w, title_w, geom_w);
        assert(text@ == head);
        let mut k: usize = 0;
        assert(text@ =~= head + table_rows(windows.take(0), app_w, title_w));
        while k < order.len()
            invariant
                windows == picked(plain_windows(self@), order@),
                k <= order@.len(),
                forall|j: int|
                    0 <= j < order@.len() ==> (#[trigger] order@[j]) < self.windows@.len(),
                text@ == head + table_rows(windows.take(k as int), app_w, title_w),
            decreases order@.len() - k,
        {
            let window = &self.windows[order[k]].1;
            assert(windows[k as int] == window@);
            let geometry = describe_geometry(&window.geometry);
            let mut row = "    ".to_owned();
            append_padded(&mut row, known_str(&window.app_id), app_w);
            row.append("  ");
            append_padded(&mut row, known_str(&window.title), title_w);
            row.append("  ");
            row.append(geometry.as_str());
            row.append("\n");
            assert(row@ == table_row(windows[k as int], app_w, title_w));
            let ghost before = text@;
            text.append(row.as_str());
            proof {
                assert(windows.take(k + 1).drop_last() =~= windows.take(k as int));
                assert(text@ =~= head + table_rows(windows.take(k + 1), app_w, title_w));
            }
            k = k + 1;
        }
        assert(windows.take(k as int) =~= windows);
        text
    }

    fn describe_window(window: &Window) -> (text: String)
        ensures
            text@ == window_text(window@),
    {
        let mut text = "Window under cursor:\n    app_id     : ".to_owned();
        text.append(known_str(&window.app_id));
        text.append("\n    title      : ");
        text.append(known_str(&window.title));
        text.append("\n    identifier : ");
        text.append(known_str(&window.identifier));
        text.append("\n    states     : ");
        let labels = window.state_labels();
        text.append(labels.as_str());
        text.append("\n    geometry   : ");
        let geometry = describe_geometry(&window.geometry);
        text.append(geometry.as_str());
        text.append("\n");
        text
    }

    fn describe_cursor(&self) -> (text: String)
        ensures
            exists|under: Option<int>| #[trigger]
                is_found(self@, under) && text@ == cursor_text(self@, under),
    {
        let found = self.window_under_cursor();
        let ghost under: Option<int> = match found {
            Some(i) => Some(i as int),
            None => None,
        };
        assert(is_found(self@, under));
        match self.cursor {
            None => "Pointer is not over the overlay (off-screen?).\n".to_owned(),
            Some((px, py)) => {
                let mut text = "Cursor at (".to_owned();
                px.append_rounded(&mut text);
                text.append(", ");
                py.append_rounded(&mut text);
                text.append(")\n\n");
                match found {
                    None => {
                        text.append("No window under the cursor.\n");
                    },
                    Some(i) => {
                        assert(self@.windows[i as int].1 == self.windows@[i as int].1@);
                        let window = Self::describe_window(&self.windows[i].1);
                        text.append(window.as_str());
                    },
                }
                assert(text@ == cursor_text(self@, under));
                text
            },
        }
    }

    /// The whole report: it clears the terminal, tells what is under the
    /// pointer, and lists every window.
    pub fn print_report(&self) -> (text: String)
        ensures
            exists|under: Option<int>| #[trigger]
                is_found(self@, under) && text@ == report_text(self@, under),
    {
        let mut text = "\u{1b}[2J\u{1b}[3J\u{1b}[H".to_owned();
        let cursor = self.describe_cursor();
        let ghost under = choose|under: Option<int>| #[trigger]
            is_found(self@, under) && cursor@ == cursor_text(self@, under);
        text.append(cursor.as_str());
        text.append("\nAll windows (");
        append_decimal(&mut text, self.windows.len() as u128);
        text.append("):\n");
        let table = self.table();
        text.append(table.as_str());
        text.append("\n(Press Ctrl-C to quit.)\n");
        assert(text@ == report_text(self@, under));
        text
    }
}

proof fn lemma_text_le_total(a: Seq<char>, b: Seq<char>)
    ensures
        crate::text::text_le(a, b) || crate::text::text_le(b, a),
    decreases a.len(),
{
    if a.len() > 0 && b.len() > 0 && a[0] == b[0] {
        lemma_text_le_total(a.drop_first(), b.drop_first());
    }
}

proof fn lemma_text_le_transitive(a: Seq<char>, b: Seq<char>, c: Seq<char>)
    requires
        crate::text::text_le(a, b),
        crate::text::text_le(b, c),
    ensures
        crate::text::text_le(a, c),
    decreases a.len(),
{
    if a.len() > 0 && a[0] == b[0] && b[0] == c[0] {
        lemma_text_le_transitive(a.drop_first(), b.drop_first(), c.drop_first());
    }
}

proof fn lemma_app_le_order(a: Option<Seq<char>>, b: Option<Seq<char>>, c: Option<Seq<char>>)
    ensures
        app_le(a, b) || app_le(b, a),
        app_le(a, b) && app_le(b, c) ==> app_le(a, c),
{
    if a is Some && b is Some {
        lemma_text_le_total(a.unwrap(), b.unwrap());
        if c is Some && app_le(a, b) && app_le(b, c) {
            lemma_text_le_transitive(a.unwrap(), b.unwrap(), c.unwrap());
        }
    }
}

/// Whether a list is in the order of its applications.
pub open spec fn is_sorted(list: Seq<WindowModel>) -> bool {
    forall|i: int, j: int|
        0 <= i < j < list.len() ==> app_le((#[trigger] list[i]).app_id, (#[trigger] list[j]).app_id)
}

proof fn lemma_inserted(list: Seq<WindowModel>, window: WindowModel)
    requires
        is_sorted(list),
    ensures
        is_sorted(inserted(list, window)),
        inserted(list, window).len() == list.len() + 1,
        inserted(list, window).to_multiset() == list.to_multiset().insert(window),
        forall|k: int|
            0 <= k < inserted(list, window).len() ==> (#[trigger] inserted(list, window)[k])
                == window || list.contains(inserted(list, window)[k]),
    decreases list.len(),
{
    broadcast use vstd::seq_lib::group_to_multiset_ensures;

    let result = inserted(list, window);
    if list.len() == 0 {
        assert(result =~= list.push(window));
    } else if app_le(list.last().app_id, window.app_id) {
        assert forall|i: int, j: int| 0 <= i < j < result.len() implies app_le(
            (#[trigger] result[i]).app_id,
            (#[trigger] result[j]).app_id,
        ) by {
            if j == list.len() && i < list.len() - 1 {
                lemma_app_le_order(list[i].app_id, list.last().app_id, window.app_id);
                assert(app_le(list[i].app_id, list[list.len() - 1].app_id));
            }
        }
        assert forall|k: int| 0 <= k < result.len() implies (#[trigger] result[k]) == window
            || list.contains(result[k]) by {
            if k < list.len() {
                assert(result[k] == list[k]);
            }
        }
    } else {
        let shorter = list.drop_last();
        lemma_inserted(shorter, window);
        let front = inserted(shorter, window);
        lemma_app_le_order(window.app_id, list.last().app_id, window.app_id);
        assert forall|i: int, j: int| 0 <= i < j < result.len() implies app_le(
            (#[trigger] result[i]).app_id,
            (#[trigger] result[j]).app_id,
        ) by {
            if j == front.len() {
                if front[i] != window {
                    let k = choose|k: int| 0 <= k < shorter.len() && shorter[k] == front[i];
                    assert(app_le(list[k].app_id, list[list.len() - 1].app_id));
                }
            }
        }
        assert(list =~= shorter.push(list.last()));
        assert(result.to_multiset() =~= list.to_multiset().insert(window));
        assert forall|k: int| 0 <= k < result.len() implies (#[trigger] result[k]) == window
            || list.contains(result[k]) by {
            if k < front.len() {
                assert(result[k] == front[k]);
                if front[k] != window {
                    let m = choose|m: int| 0 <= m < shorter.len() && shorter[m] == front[k];
                    assert(list[m] == front[k]);
                }
            } else {
                assert(result[k] == list[list.len() - 1]);
            }
        }
    }
}

/// The table shows every window exactly once, and in the order of the
/// applications.
pub proof fn law_table_is_sorted_and_complete(windows: Seq<WindowModel>)
    ensures
        is_sorted(sorted_by_app(windows)),
        sorted_by_app(windows).to_multiset() == windows.to_multiset(),
    decreases windows.len(),
{
    broadcast use vstd::seq_lib::group_to_multiset_ensures;

    if windows.len() > 0 {
        law_table_is_sorted_and_complete(windows.drop_last());
        lemma_inserted(sorted_by_app(windows.drop_last()), windows.last());
        assert(windows =~= windows.drop_last().push(windows.last()));
    }
}

proof fn lemma_label(list: Seq<char>, applies: bool, label: Seq<char>, word: Seq<char>)
    ensures
        crate::text::contains_text(list, word) ==> crate::text::contains_text(
            with_label(list, applies, label),
            word,
        ) || list.len() == 0,
        applies ==> crate::text::contains_text(with_label(list, applies, label), label),
        label.len() > 0 ==> with_label(list, applies, label).len() == list.len() + (if !applies {
            0
        } else if list.len() == 0 {
            label.len() as int
        } else {
            label.len() as int + 2
        }),
{
    reveal_strlit(", ");
    let longer = with_label(list, applies, label);
    if applies {
        if list.len() == 0 {
            assert(longer =~= Seq::<char>::empty() + label + Seq::<char>::empty());
            crate::text::law_contained_text_stands_between(longer, label, seq![], seq![]);
        } else {
            assert(longer =~= (list + ", "@) + label + Seq::<char>::empty());
            crate::text::law_contained_text_stands_between(longer, label, list + ", "@, seq![]);
        }
    }
    if crate::text::contains_text(list, word) && list.len() > 0 && applies {
        crate::text::law_contained_text_stands_between(list, word, seq![], seq![]);
        let (a, b) = choose|a: Seq<char>, b: Seq<char>| list == #[trigger] (a + word + b);
        assert(longer =~= a + word + (b + ", "@ + label));
        crate::text::law_contained_text_stands_between(longer, word, a, b + ", "@ + label);
    }
}

/// How many characters a label takes up together with the comma and the blank.
pub open spec fn label_width(applies: bool, width: int) -> int {
    if applies {
        width + 2
    } else {
        0
    }
}

/// Each state that a window is in is named, by its own name, and nothing else is
/// listed: the list has just the room for these names, with a comma and a blank
/// between each two. A window that is in none of them is listed with none.
pub proof fn law_states_are_named(states: Seq<u32>)
    ensures
        states.contains(2u32) ==> crate::text::contains_text(state_text(states), "activated"@),
        states.contains(0u32) ==> crate::text::contains_text(state_text(states), "maximized"@),
        states.contains(1u32) ==> crate::text::contains_text(state_text(states), "minimized"@),
        states.contains(3u32) ==> crate::text::contains_text(state_text(states), "fullscreen"@),
        states.contains(4u32) ==> crate::text::contains_text(state_text(states), "sticky"@),
        ({
            let room = label_width(states.contains(2u32), 9) + label_width(
                states.contains(0u32),
                9,
            ) + label_width(states.contains(1u32), 9) + label_width(states.contains(3u32), 10)
                + label_width(states.contains(4u32), 6);
            &&& room == 0 ==> state_text(states) == "(none)"@
            &&& room > 0 ==> state_text(states).len() == room - 2
        }),
{
    reveal_strlit("activated");
    reveal_strlit("maximized");
    reveal_strlit("minimized");
    reveal_strlit("fullscreen");
    reveal_strlit("sticky");
    let none = Seq::<char>::empty();
    let one = with_label(none, states.contains(2u32), "activated"@);
    let two = with_label(one, states.contains(0u32), "maximized"@);
    let three = with_label(two, states.contains(1u32), "minimized"@);
    let four = with_label(three, states.contains(3u32), "fullscreen"@);
    let five = with_label(four, states.contains(4u32), "sticky"@);
    assert(five == state_list(states));
    lemma_label(none, states.contains(2u32), "activated"@, "activated"@);
    lemma_label(one, states.contains(0u32), "maximized"@, "activated"@);
    lemma_label(two, states.contains(1u32), "minimized"@, "activated"@);
    lemma_label(three, states.contains(3u32), "fullscreen"@, "activated"@);
    lemma_label(four, states.contains(4u32), "sticky"@, "activated"@);
    lemma_label(two, states.contains(1u32), "minimized"@, "maximized"@);
    lemma_label(three, states.contains(3u32), "fullscreen"@, "maximized"@);
    lemma_label(four, states.contains(4u32), "sticky"@, "maximized"@);
    lemma_label(three, states.contains(3u32), "fullscreen"@, "minimized"@);
    lemma_label(four, states.contains(4u32), "sticky"@, "minimized"@);
    lemma_label(four, states.contains(4u32), "sticky"@, "fullscreen"@);
}

/// The number that a text stands for that has a minus in front if it is negative.
pub open spec fn signed_number_of(text: Seq<char>) -> int {
    if text.len() > 0 && text[0] == '-' {
        -crate::text::number_of(text.drop_first())
    } else {
        crate::text::number_of(text)
    }
}

/// A rectangle is told by its width and its height, and then by its column and its
/// row.
pub proof fn law_rectangle_is_told_by_size_and_place(g: Geometry)
    ensures
        exists|width: Seq<char>, height: Seq<char>, x: Seq<char>, y: Seq<char>|
            geometry_text(Some(g)) == #[trigger] (width + "x"@ + height + " at ("@ + x + ", "@ + y
                + ")"@) && signed_number_of(width) == g.width && signed_number_of(height)
                == g.height && signed_number_of(x) == g.x && signed_number_of(y) == g.y,
        geometry_text(None) == "(unknown)"@,
{
    let width = crate::text::decimal_int(g.width as int);
    let height = crate::text::decimal_int(g.height as int);
    let x = crate::text::decimal_int(g.x as int);
    let y = crate::text::decimal_int(g.y as int);
    crate::text::law_signed_decimal_stands_for_number(g.width as int);
    crate::text::law_signed_decimal_stands_for_number(g.height as int);
    crate::text::law_signed_decimal_stands_for_number(g.x as int);
    crate::text::law_signed_decimal_stands_for_number(g.y as int);
    assert(geometry_text(Some(g)) == width + "x"@ + height + " at ("@ + x + ", "@ + y + ")"@);
}

/// A column is as wide as the widest of its cells and its title, and no wider.
pub proof fn law_column_fits_its_widest_cell(title: Seq<char>, cells: Seq<Seq<char>>)
    ensures
        crate::text::byte_len(title) <= column_width(title, cells),
        forall|i: int|
            0 <= i < cells.len() ==> crate::text::byte_len(#[trigger] cells[i]) <= column_width(
                title,
                cells,
            ),
        column_width(title, cells) == crate::text::byte_len(title) || exists|i: int|
            0 <= i < cells.len() && crate::text::byte_len(#[trigger] cells[i]) == column_width(
                title,
                cells,
            ),
    decreases cells.len(),
{
    if cells.len() > 0 {
        let shorter = cells.drop_last();
        law_column_fits_its_widest_cell(title, shorter);
        assert forall|i: int| 0 <= i < cells.len() implies crate::text::byte_len(
            #[trigger] cells[i],
        ) <= column_width(title, cells) by {
            if i < shorter.len() {
                assert(cells[i] == shorter[i]);
            }
        }
        if column_width(title, cells) == crate::text::byte_len(cells.last()) {
            assert(crate::text::byte_len(cells[cells.len() - 1]) == column_width(title, cells));
        } else if column_width(title, shorter) != crate::text::byte_len(title) {
            let i = choose|i: int|
                0 <= i < shorter.len() && crate::text::byte_len(#[trigger] shorter[i])
                    == column_width(title, shorter);
            assert(crate::text::byte_len(cells[i]) == column_width(title, cells));
        }
    }
}

/// Whether a text is nothing but blanks.
pub open spec fn is_gap(text: Seq<char>) -> bool {
    forall|i: int| 0 <= i < text.len() ==> #[trigger] text[i] == ' '
}

/// The line of a window shows its application, its title and its place, each below
/// the others of its column: an application or a title that is too short for the
/// column is followed by so many more blanks.
pub proof fn law_line_shows_the_window(
    window: WindowModel,
    app: Seq<char>,
    title: Seq<char>,
    app_w: usize,
    title_w: usize,
)
    requires
        window.app_id == Some(app) || window.app_id is None && app == "(unknown)"@,
        window.title == Some(title) || window.title is None && title == "(unknown)"@,
        app.len() <= app_w,
        title.len() <= title_w,
    ensures
        exists|first: Seq<char>, second: Seq<char>|
            table_row(window, app_w, title_w) == #[trigger] ("    "@ + app + first + title + second
                + geometry_text(window.geometry) + "\n"@) && is_gap(first) && is_gap(second)
                && app.len() + first.len() == app_w + 2 && title.len() + second.len() == title_w
                + 2,
{
    reveal_strlit("  ");
    crate::text::law_padding_adds_blanks_behind(app, app_w as nat);
    crate::text::law_padding_adds_blanks_behind(title, title_w as nat);
    let wide_app = crate::text::padded(app, app_w as nat);
    let wide_title = crate::text::padded(title, title_w as nat);
    let first = wide_app.skip(app.len() as int) + "  "@;
    let second = wide_title.skip(title.len() as int) + "  "@;
    assert(wide_app =~= wide_app.take(app.len() as int) + wide_app.skip(app.len() as int));
    assert(wide_title =~= wide_title.take(title.len() as int) + wide_title.skip(
        title.len() as int,
    ));
    assert(table_row(window, app_w, title_w) =~= "    "@ + app + first + title + second
        + geometry_text(window.geometry) + "\n"@);
}

/// Whether the lines of some windows have a window's line right behind those of
/// the windows before it.
pub open spec fn has_line(windows: Seq<WindowModel>, app_w: usize, title_w: usize, i: int) -> bool {
    exists|behind: Seq<char>|
        table_rows(windows, app_w, title_w) == #[trigger] (table_rows(
            windows.take(i),
            app_w,
            title_w,
        ) + table_row(windows[i], app_w, title_w) + behind)
}

/// Every window has its line, and the lines stand in the order of the windows.
pub proof fn law_every_window_has_its_line(
    windows: Seq<WindowModel>,
    app_w: usize,
    title_w: usize,
    i: int,
)
    requires
        0 <= i < windows.len(),
    ensures
        has_line(windows, app_w, title_w, i),
    decreases windows.len(),
{
    let shorter = windows.drop_last();
    let line = table_row(windows[i], app_w, title_w);
    let front = table_rows(windows.take(i), app_w, title_w);
    if i == windows.len() - 1 {
        assert(windows.take(i) =~= shorter);
        assert(table_rows(windows, app_w, title_w) =~= front + line + Seq::<char>::empty());
    } else {
        law_every_window_has_its_line(shorter, app_w, title_w, i);
        assert(shorter.take(i) =~= windows.take(i));
        let behind = choose|behind: Seq<char>|
            table_rows(shorter, app_w, title_w) == #[trigger] (front + line + behind);
        let last = table_row(windows.last(), app_w, title_w);
        assert(table_rows(windows, app_w, title_w) =~= front + line + (behind + last));
    }
}

/// Of two lines of the table the one comes first whose application is not known, or
/// else has the lesser character where the two names first differ; a name comes
/// before one that goes on behind it.
pub proof fn law_lines_are_ordered_by_name(windows: Seq<WindowModel>, i: int, j: int, k: int)
    requires
        0 <= i < j < windows.len(),
    ensures
        ({
            let first = sorted_by_app(windows)[i].app_id;
            let second = sorted_by_app(windows)[j].app_id;
            &&& second is None ==> first is None
            &&& first matches Some(a) ==> (second matches Some(b) ==> (0 <= k < a.len() && k
                < b.len() && a.take(k) == b.take(k) ==> a[k] <= b[k]))
            &&& first matches Some(a) ==> (second matches Some(b) ==> (k == b.len() && k < a.len()
                ==> a.take(k) != b))
        }),
        sorted_by_app(windows).len() == windows.len(),
{
    broadcast use vstd::seq_lib::group_to_multiset_ensures;

    law_table_is_sorted_and_complete(windows);
    let sorted = sorted_by_app(windows);
    assert(sorted.len() == sorted.to_multiset().len());
    assert(app_le(sorted[i].app_id, sorted[j].app_id));
    if let Some(a) = sorted[i].app_id {
        if let Some(b) = sorted[j].app_id {
            if 0 <= k < a.len() && k < b.len() && a.take(k) == b.take(k) && a[k] > b[k] {
                let common = a.take(k);
                assert(a =~= common + seq![a[k]] + a.skip(k + 1));
                assert(b =~= common + seq![b[k]] + b.skip(k + 1));
                crate::text::law_texts_are_ordered_by_first_difference(
                    common,
                    b[k],
                    a[k],
                    b.skip(k + 1),
                    a.skip(k + 1),
                );
            }
            if k == b.len() && k < a.len() && a.take(k) == b {
                assert(a =~= b + a.skip(k));
                crate::text::law_texts_are_ordered_by_first_difference(
                    b,
                    'a',
                    'b',
                    a.skip(k),
                    a.skip(k),
                );
            }
        }
    }
}

proof fn lemma_app_le_reflexive(a: Option<Seq<char>>)
    ensures
        app_le(a, a),
{
    lemma_app_le_order(a, a, a);
}

proof fn lemma_filter_push(
    list: Seq<WindowModel>,
    window: WindowModel,
    keep: spec_fn(WindowModel) -> bool,
)
    ensures
        list.push(window).filter(keep) == if keep(window) {
            list.filter(keep).push(window)
        } else {
            list.filter(keep)
        },
{
    reveal(Seq::filter);
    assert(list.push(window).drop_last() =~= list);
}

proof fn lemma_inserted_filter(list: Seq<WindowModel>, window: WindowModel, app: Option<Seq<char>>)
    ensures
        ({
            let keep = |w: WindowModel| w.app_id == app;
            inserted(list, window).filter(keep) == list.push(window).filter(keep)
        }),
    decreases list.len(),
{
    let keep = |w: WindowModel| w.app_id == app;
    if list.len() > 0 && !app_le(list.last().app_id, window.app_id) {
        let shorter = list.drop_last();
        lemma_inserted_filter(shorter, window, app);
        lemma_app_le_reflexive(window.app_id);
        lemma_filter_push(inserted(shorter, window), list.last(), keep);
        lemma_filter_push(shorter, window, keep);
        lemma_filter_push(shorter, list.last(), keep);
        lemma_filter_push(list, window, keep);
        assert(list =~= shorter.push(list.last()));
    }
}

/// The windows of one application stand in the table in the order in which they
/// appeared, and every one of them does.
pub proof fn law_windows_of_one_application_keep_their_order(
    windows: Seq<WindowModel>,
    app: Option<Seq<char>>,
)
    ensures
        sorted_by_app(windows).filter(|w: WindowModel| w.app_id == app) == windows.filter(
            |w: WindowModel| w.app_id == app,
        ),
    decreases windows.len(),
{
    let keep = |w: WindowModel| w.app_id == app;
    if windows.len() > 0 {
        let shorter = windows.drop_last();
        let window = windows.last();
        law_windows_of_one_application_keep_their_order(shorter, app);
        lemma_inserted_filter(sorted_by_app(shorter), window, app);
        lemma_filter_push(sorted_by_app(shorter), window, keep);
        lemma_filter_push(shorter, window, keep);
        assert(windows =~= shorter.push(window));
    } else {
        assert(sorted_by_app(windows) =~= windows);
    }
}

/// Whether a report lists some windows, each in its line, in columns that have room
/// for every application and every title.
pub open spec fn lists(
    report: Seq<char>,
    windows: Seq<WindowModel>,
    head: Seq<char>,
    app_w: usize,
    title_w: usize,
    tail: Seq<char>,
) -> bool {
    &&& report == head + table_rows(windows, app_w, title_w) + tail
    &&& forall|i: int|
        0 <= i < windows.len() ==> crate::text::byte_len(known((#[trigger] windows[i]).app_id))
            <= app_w && crate::text::byte_len(known(windows[i].title)) <= title_w
}

/// A report lists every window once, sorted by application, below the number of
/// windows, whatever is under the pointer.
pub proof fn law_report_lists_every_window(model: AppModel, under: Option<int>)
    ensures
        exists|
            list: Seq<WindowModel>,
            head: Seq<char>,
            app_w: usize,
            title_w: usize,
            tail: Seq<char>,
        | #[trigger]
            lists(report_text(model, under), list, head, app_w, title_w, tail) && is_sorted(list)
                && list.to_multiset() == Seq::new(
                model.windows.len(),
                |i: int| model.windows[i].1,
            ).to_multiset(),
        crate::text::contains_text(
            report_text(model, under),
            "All windows ("@ + crate::text::decimal(model.windows.len()) + "):"@,
        ),
{
    reveal_strlit("\nAll windows (");
    reveal_strlit("All windows (");
    reveal_strlit("):\n");
    reveal_strlit("):");
    let list = sorted_by_app(plain_windows(model));
    law_table_is_sorted_and_complete(plain_windows(model));
    let app_w = column_width("app_id"@, app_cells(list));
    let title_w = column_width("title"@, title_cells(list));
    let geom_w = column_width("geometry"@, geometry_cells(list));
    law_column_fits_its_widest_cell("app_id"@, app_cells(list));
    law_column_fits_its_widest_cell("title"@, title_cells(list));
    let top = "\u{1b}[2J\u{1b}[3J\u{1b}[H"@ + cursor_text(model, under);
    let count = crate::text::decimal(model.windows.len());
    let head = top + "\nAll windows ("@ + count + "):\n"@ + table_head(app_w, title_w, geom_w);
    let tail = "\n(Press Ctrl-C to quit.)\n"@;
    let report = report_text(model, under);
    assert(report =~= head + table_rows(list, app_w, title_w) + tail);
    assert forall|i: int| 0 <= i < list.len() implies crate::text::byte_len(
        known((#[trigger] list[i]).app_id),
    ) <= app_w && crate::text::byte_len(known(list[i].title)) <= title_w by {
        assert(app_cells(list)[i] == known(list[i].app_id));
        assert(title_cells(list)[i] == known(list[i].title));
    }
    assert(lists(report, list, head, app_w, title_w, tail));
    let title = "All windows ("@ + count + "):"@;
    let before = top + seq!['\n'];
    let behind = seq!['\n'] + table_text(list) + tail;
    assert("\nAll windows ("@ =~= seq!['\n'] + "All windows ("@);
    assert("):\n"@ =~= "):"@ + seq!['\n']);
    assert(report =~= before + title + behind);
    crate::text::law_contained_text_stands_between(report, title, before, behind);
}

proof fn lemma_grows(part: Seq<char>, more: Seq<char>, word: Seq<char>)
    ensures
        crate::text::contains_text(part, word) ==> crate::text::contains_text(part + more, word),
        crate::text::contains_text(part, word) ==> crate::text::contains_text(more + part, word),
{
    if crate::text::contains_text(part, word) {
        crate::text::law_contained_text_stands_between(part, word, seq![], seq![]);
        let (a, b) = choose|a: Seq<char>, b: Seq<char>| part == #[trigger] (a + word + b);
        assert(part + more =~= a + word + (b + more));
        assert(more + part =~= (more + a) + word + b);
        crate::text::law_contained_text_stands_between(part, word, a, b + more);
        crate::text::law_contained_text_stands_between(part, word, more + a, b);
    }
}

/// What stands behind a label and before the end of its line.
proof fn lemma_labelled(
    front: Seq<char>,
    gap: Seq<char>,
    label: Seq<char>,
    value: Seq<char>,
    end: Seq<char>,
    rest: Seq<char>,
)
    ensures
        crate::text::contains_text(
            front + (gap + label) + value + (end + rest),
            label + value + end,
        ),
{
    let word = label + value + end;
    assert(front + (gap + label) + value + (end + rest) =~= (front + gap) + word + rest);
    crate::text::law_contained_text_stands_between(word, word, front + gap, rest);
}

/// The labels of the lines, each between the end of the line before it and the value
/// behind it.
proof fn lemma_labels()
    ensures
        "Window under cursor:\n    app_id     : "@ == "Window under cursor:\n   "@
            + " app_id     : "@,
        "\n    title      : "@ == "\n   "@ + " title      : "@,
        "\n    identifier : "@ == "\n   "@ + " identifier : "@,
        "\n    states     : "@ == "\n   "@ + " states     : "@,
        "\n    geometry   : "@ == "\n   "@ + " geometry   : "@,
        "\n    title      : "@ == "\n"@ + "    title      : "@,
        "\n    identifier : "@ == "\n"@ + "    identifier : "@,
        "\n    states     : "@ == "\n"@ + "    states     : "@,
        "\n    geometry   : "@ == "\n"@ + "    geometry   : "@,
        "\n"@ == "\n"@ + ""@,
{
    reveal_strlit("Window under cursor:\n    app_id     : ");
    reveal_strlit("Window under cursor:\n   ");
    reveal_strlit("\n   ");
    reveal_strlit("\n    title      : ");
    reveal_strlit("\n    identifier : ");
    reveal_strlit("\n    states     : ");
    reveal_strlit("\n    geometry   : ");
    reveal_strlit("\n");
    reveal_strlit("");
    reveal_strlit(" app_id     : ");
    reveal_strlit(" title      : ");
    reveal_strlit(" identifier : ");
    reveal_strlit(" states     : ");
    reveal_strlit(" geometry   : ");
    reveal_strlit("    title      : ");
    reveal_strlit("    identifier : ");
    reveal_strlit("    states     : ");
    reveal_strlit("    geometry   : ");
    assert("Window under cursor:\n    app_id     : "@ =~= "Window under cursor:\n   "@
        + " app_id     : "@);
    assert("\n    title      : "@ =~= "\n   "@ + " title      : "@);
    assert("\n    identifier : "@ =~= "\n   "@ + " identifier : "@);
    assert("\n    states     : "@ =~= "\n   "@ + " states     : "@);
    assert("\n    geometry   : "@ =~= "\n   "@ + " geometry   : "@);
    assert("\n    title      : "@ =~= "\n"@ + "    title      : "@);
    assert("\n    identifier : "@ =~= "\n"@ + "    identifier : "@);
    assert("\n    states     : "@ =~= "\n"@ + "    states     : "@);
    assert("\n    geometry   : "@ =~= "\n"@ + "    geometry   : "@);
    assert("\n"@ =~= "\n"@ + ""@);
}

/// What is reported of the window under the pointer names its application, its title,
/// its identifier, its states and its place, each behind its own label.
pub proof fn law_window_is_told_by_label(
    window: WindowModel,
    app: Seq<char>,
    title: Seq<char>,
    identifier: Seq<char>,
)
    requires
        window.app_id == Some(app) || window.app_id is None && app == "(unknown)"@,
        window.title == Some(title) || window.title is None && title == "(unknown)"@,
        window.identifier == Some(identifier) || window.identifier is None && identifier
            == "(unknown)"@,
    ensures
        crate::text::contains_text(window_text(window), " app_id     : "@ + app + "\n"@),
        crate::text::contains_text(window_text(window), " title      : "@ + title + "\n"@),
        crate::text::contains_text(window_text(window), " identifier : "@ + identifier + "\n"@),
        crate::text::contains_text(
            window_text(window),
            " states     : "@ + state_text(window.states) + "\n"@,
        ),
        crate::text::contains_text(
            window_text(window),
            " geometry   : "@ + geometry_text(window.geometry) + "\n"@,
        ),
{
    lemma_labels();
    let states = state_text(window.states);
    let geometry = geometry_text(window.geometry);
    let end = "\n"@;
    let none = Seq::<char>::empty();
    let one = "Window under cursor:\n    app_id     : "@;
    let two = "\n    title      : "@;
    let three = "\n    identifier : "@;
    let four = "\n    states     : "@;
    let five = "\n    geometry   : "@;
    assert(none + one =~= one);
    let a = one + app;
    let b = a + two + title;
    let c = b + three + identifier;
    let d = c + four + states;
    let e = d + five + geometry;
    lemma_labelled(
        none,
        "Window under cursor:\n   "@,
        " app_id     : "@,
        app,
        end,
        "    title      : "@,
    );
    lemma_labelled(a, "\n   "@, " title      : "@, title, end, "    identifier : "@);
    lemma_labelled(b, "\n   "@, " identifier : "@, identifier, end, "    states     : "@);
    lemma_labelled(c, "\n   "@, " states     : "@, states, end, "    geometry   : "@);
    lemma_labelled(d, "\n   "@, " geometry   : "@, geometry, end, ""@);
    lemma_rest_of_lines(window, a, " app_id     : "@ + app + end);
    lemma_rest_of_lines(window, a, " title      : "@ + title + end);
    lemma_rest_of_lines(window, a, " identifier : "@ + identifier + end);
    lemma_rest_of_lines(window, a, " states     : "@ + states + end);
}

/// What is found in the lines up to a label is found in all of them.
proof fn lemma_rest_of_lines(window: WindowModel, a: Seq<char>, word: Seq<char>)
    requires
        a == "Window under cursor:\n    app_id     : "@ + known(window.app_id),
    ensures
        ({
            let b = a + "\n    title      : "@ + known(window.title);
            let c = b + "\n    identifier : "@ + known(window.identifier);
            let d = c + "\n    states     : "@ + state_text(window.states);
            &&& crate::text::contains_text(a + "\n    title      : "@, word)
                ==> crate::text::contains_text(window_text(window), word)
            &&& crate::text::contains_text(b + "\n    identifier : "@, word)
                ==> crate::text::contains_text(window_text(window), word)
            &&& crate::text::contains_text(c + "\n    states     : "@, word)
                ==> crate::text::contains_text(window_text(window), word)
            &&& crate::text::contains_text(d + "\n    geometry   : "@, word)
                ==> crate::text::contains_text(window_text(window), word)
        }),
{
    let states = state_text(window.states);
    let geometry = geometry_text(window.geometry);
    let two = "\n    title      : "@;
    let three = "\n    identifier : "@;
    let four = "\n    states     : "@;
    let five = "\n    geometry   : "@;
    let b = a + two + known(window.title);
    let c = b + three + known(window.identifier);
    let d = c + four + states;
    let e = d + five + geometry;
    lemma_grows(a + two, known(window.title), word);
    lemma_grows(b, three, word);
    lemma_grows(b + three, known(window.identifier), word);
    lemma_grows(c, four, word);
    lemma_grows(c + four, states, word);
    lemma_grows(d, five, word);
    lemma_grows(d + five, geometry, word);
    lemma_grows(e, "\n"@, word);
}

/// What is found in what is said of the pointer is found in the report.
proof fn lemma_rest_of_report(model: AppModel, under: Option<int>, word: Seq<char>)
    ensures
        crate::text::contains_text(cursor_text(model, under), word) ==> crate::text::contains_text(
            report_text(model, under),
            word,
        ),
{
    let clear = "\u{1b}[2J\u{1b}[3J\u{1b}[H"@;
    let a = clear + cursor_text(model, under);
    let b = a + "\nAll windows ("@;
    let c = b + crate::text::decimal(model.windows.len());
    let d = c + "):\n"@;
    let table = table_text(sorted_by_app(plain_windows(model)));
    lemma_grows(cursor_text(model, under), clear, word);
    lemma_grows(a, "\nAll windows ("@, word);
    lemma_grows(b, crate::text::decimal(model.windows.len()), word);
    lemma_grows(c, "):\n"@, word);
    lemma_grows(d, table, word);
    lemma_grows(d + table, "\n(Press Ctrl-C to quit.)\n"@, word);
}

/// A report tells where the pointer is, column before row, and of the window under it
/// if there is one.
pub proof fn law_report_tells_of_the_pointer(
    model: AppModel,
    under: Option<int>,
    px: crate::fixed::Fixed,
    py: crate::fixed::Fixed,
)
    requires
        model.cursor == Some((px, py)),
    ensures
        crate::text::contains_text(
            report_text(model, under),
            "Cursor at ("@ + px.text() + ", "@ + py.text() + ")"@,
        ),
        under matches Some(i) ==> crate::text::contains_text(
            report_text(model, under),
            window_text(model.windows[i].1),
        ),
        under is None ==> crate::text::contains_text(
            report_text(model, under),
            "No window under the cursor.\n"@,
        ),
{
    reveal_strlit(")\n\n");
    reveal_strlit(")");
    let place = "Cursor at ("@ + px.text() + ", "@ + py.text() + ")"@;
    let what = match under {
        None => "No window under the cursor.\n"@,
        Some(i) => window_text(model.windows[i].1),
    };
    let gap = seq!['\n', '\n'];
    let none = Seq::<char>::empty();
    assert(")\n\n"@ =~= ")"@ + gap);
    let said = "Cursor at ("@ + px.text() + ", "@ + py.text() + ")\n\n"@;
    assert(said =~= none + place + gap);
    crate::text::law_contained_text_stands_between(said, place, none, gap);
    lemma_grows(said, what, place);
    assert(said + what =~= said + what + none);
    crate::text::law_contained_text_stands_between(said, what, said, none);
    assert(cursor_text(model, under) == said + what);
    lemma_rest_of_report(model, under, place);
    lemma_rest_of_report(model, under, what);
}

/// A report says so if the pointer is not over the overlay.
pub proof fn law_report_tells_if_the_pointer_is_away(model: AppModel, under: Option<int>)
    requires
        model.cursor is None,
    ensures
        crate::text::contains_text(
            report_text(model, under),
            "Pointer is not over the overlay (off-screen?).\n"@,
        ),
{
    let word = "Pointer is not over the overlay (off-screen?).\n"@;
    let none = Seq::<char>::empty();
    assert(word =~= none + word + none);
    crate::text::law_contained_text_stands_between(word, word, none, none);
    lemma_rest_of_report(model, under, word);
}

proof fn lemma_five_cells(
    indent: Seq<char>,
    a: Seq<char>,
    gap: Seq<char>,
    b: Seq<char>,
    c: Seq<char>,
    end: Seq<char>,
)
    ensures
        ({
            let line = indent + a + gap + b + gap + c + end;
            let (i, g) = (indent.len() as int, gap.len() as int);
            &&& line.len() == i + a.len() + g + b.len() + g + c.len() + end.len()
            &&& line.subrange(i, i + a.len()) == a
            &&& line.subrange(i + a.len() + g, i + a.len() + g + b.len()) == b
            &&& line.subrange(
                i + a.len() + g + b.len() + g,
                i + a.len() + g + b.len() + g + c.len(),
            ) == c
        }),
{
    let line = indent + a + gap + b + gap + c + end;
    let (i, g) = (indent.len() as int, gap.len() as int);
    assert(line.subrange(i, i + a.len()) =~= a);
    assert(line.subrange(i + a.len() + g, i + a.len() + g + b.len()) =~= b);
    assert(line.subrange(i + a.len() + g + b.len() + g, i + a.len() + g + b.len() + g + c.len())
        =~= c);
}

/// The table's head are two lines of the same length: the titles of the columns, each
/// at the place where the cells of its column begin, and below each of them a rule as
/// wide as the column.
pub proof fn law_head_stands_above_its_columns(app_w: usize, title_w: usize, geom_w: usize)
    requires
        app_w >= 6,
        title_w >= 5,
        geom_w >= 8,
    ensures
        exists|titles: Seq<char>, rules: Seq<char>|
            table_head(app_w, title_w, geom_w) == #[trigger] (titles + rules) && titles.len()
                == rules.len() == app_w + title_w + geom_w + 9 && titles.subrange(4, 10)
                == "app_id"@ && titles.subrange(app_w + 6, app_w + 11) == "title"@
                && titles.subrange(app_w + title_w + 8, app_w + title_w + 16) == "geometry"@ && (
            forall|k: int|
                (4 <= k < app_w + 4 || app_w + 6 <= k < app_w + title_w + 6 || app_w + title_w + 8
                    <= k < app_w + title_w + geom_w + 8) ==> #[trigger] rules[k] == '-'),
{
    reveal_strlit("    ");
    reveal_strlit("  ");
    reveal_strlit("\n");
    reveal_strlit("-");
    reveal_strlit("app_id");
    reveal_strlit("title");
    reveal_strlit("geometry");
    let (indent, gap, end) = ("    "@, "  "@, "\n"@);
    let a = crate::text::padded("app_id"@, app_w as nat);
    let b = crate::text::padded("title"@, title_w as nat);
    let c = crate::text::padded("geometry"@, geom_w as nat);
    let x = crate::text::repeated("-"@, app_w as nat);
    let y = crate::text::repeated("-"@, title_w as nat);
    let z = crate::text::repeated("-"@, geom_w as nat);
    crate::text::law_padding_adds_blanks_behind("app_id"@, app_w as nat);
    crate::text::law_padding_adds_blanks_behind("title"@, title_w as nat);
    crate::text::law_padding_adds_blanks_behind("geometry"@, geom_w as nat);
    crate::text::law_repeated_character_fills_its_width("-"@, app_w as nat);
    crate::text::law_repeated_character_fills_its_width("-"@, title_w as nat);
    crate::text::law_repeated_character_fills_its_width("-"@, geom_w as nat);
    lemma_five_cells(indent, a, gap, b, c, end);
    lemma_five_cells(indent, x, gap, y, z, end);
    let titles = indent + a + gap + b + gap + c + end;
    let rules = indent + x + gap + y + gap + z + end;
    assert(titles.subrange(4, 10) =~= a.take(6)) by {
        assert(titles.subrange(4, 10) =~= titles.subrange(4, 4 + app_w).take(6));
    }
    assert(titles.subrange(app_w + 6, app_w + 11) =~= b.take(5)) by {
        assert(titles.subrange(app_w + 6, app_w + 11) =~= titles.subrange(
            app_w + 6,
            app_w + 6 + title_w,
        ).take(5));
    }
    assert(titles.subrange(app_w + title_w + 8, app_w + title_w + 16) =~= c.take(8)) by {
        assert(titles.subrange(app_w + title_w + 8, app_w + title_w + 16) =~= titles.subrange(
            app_w + title_w + 8,
            app_w + title_w + 8 + geom_w,
        ).take(8));
    }
    assert forall|k: int|
        (4 <= k < app_w + 4 || app_w + 6 <= k < app_w + title_w + 6 || app_w + title_w + 8 <= k
            < app_w + title_w + geom_w + 8) implies #[trigger] rules[k] == '-' by {
        if k < app_w + 4 {
            assert(rules.subrange(4, 4 + app_w)[k - 4] == x[k - 4]);
        } else if k < app_w + title_w + 6 {
            assert(rules.subrange(app_w + 6, app_w + 6 + title_w)[k - app_w - 6] == y[k - app_w
                - 6]);
        } else {
            let at = app_w + title_w + 8;
            assert(rules.subrange(at, at + geom_w)[k - at] == z[k - at]);
        }
    }
    lemma_head_is_two_lines(indent, a, gap, b, c, end, x, y, z);
    assert(table_head(app_w, title_w, geom_w) == titles + rules);
}

proof fn lemma_head_is_two_lines(
    indent: Seq<char>,
    a: Seq<char>,
    gap: Seq<char>,
    b: Seq<char>,
    c: Seq<char>,
    end: Seq<char>,
    x: Seq<char>,
    y: Seq<char>,
    z: Seq<char>,
)
    ensures
        indent + a + gap + b + gap + c + end + indent + x + gap + y + gap + z + end == (indent + a
            + gap + b + gap + c + end) + (indent + x + gap + y + gap + z + end),
{
    let first = indent + a + gap + b + gap + c + end;
    assert(first + indent + x + gap + y + gap + z + end =~= first + (indent + x + gap + y + gap + z
        + end));
}

} // verus!
