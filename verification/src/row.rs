//! The rows of the overlay's list: what a row shows of its item, and where its
//! buttons are.

use vstd::prelude::*;
use vstd::string::*;

use crate::history::{ClipboardItemPreview, ContentClass};
use crate::text::append_decimal;

verus! {

/// A number of units of time that lie in the past.
pub open spec fn units_ago(count: nat, unit: Seq<char>) -> Seq<char> {
    crate::text::decimal(count) + unit + (if count == 1 {
        ""@
    } else {
        "s"@
    }) + " ago"@
}

/// How long ago `timestamp` was at the time `now`, both in seconds. What lies in
/// the future counts as the present.
pub open spec fn relative_time(now: u64, timestamp: u64) -> Seq<char> {
    let diff = if now > timestamp {
        now - timestamp
    } else {
        0
    };
    if diff < 30 {
        "Just now"@
    } else if diff < 3600 {
        units_ago((diff / 60) as nat, " minute"@)
    } else if diff < 86400 {
        units_ago((diff / 3600) as nat, " hour"@)
    } else {
        units_ago((diff / 86400) as nat, " day"@)
    }
}

fn describe_units(count: u64, unit: &str) -> (text: String)
    ensures
        text@ == units_ago(count as nat, unit@),
{
    let mut text = String::new();
    append_decimal(&mut text, count as u128);
    assert(text@ =~= crate::text::decimal(count as nat));
    text.append(unit);
    text.append(
        if count == 1 {
            ""
        } else {
            "s"
        },
    );
    text.append(" ago");
    text
}

/// How long ago `timestamp` was at the time `now`, in words.
pub fn format_timestamp(now: u64, timestamp: u64) -> (text: String)
    ensures
        text@ == relative_time(now, timestamp),
{
    let diff: u64 = now.saturating_sub(timestamp);
    if diff < 30 {
        "Just now".to_owned()
    } else if diff < 3600 {
        describe_units(diff / 60, " minute")
    } else if diff < 86400 {
        describe_units(diff / 3600, " hour")
    } else {
        describe_units(diff / 86400, " day")
    }
}

/// What a row shows of its item's content.
pub enum RowContent {
    /// The thumbnail.
    Picture,
    /// The preview, in a fixed-width face or not.
    Text { text: String, monospace: bool },
}

/// What a row shows.
pub struct RowView {
    pub icon: String,
    pub kind_name: String,
    pub time: String,
    /// Whether the pin button is marked.
    pub pinned: bool,
    pub pin_tooltip: String,
    pub show_pin: bool,
    pub show_trash: bool,
    pub content: RowContent,
}

/// The row of an item at the time `now`. `picture` says whether the item's
/// thumbnail can be shown; an item without one shows its preview, code and files
/// in a fixed-width face.
pub fn generate_listboxrow_from_preview(
    item: &ClipboardItemPreview,
    now: u64,
    show_trash: bool,
    show_pin: bool,
    picture: bool,
) -> (row: RowView)
    ensures
        row.icon@ == item@.kind_icon,
        row.kind_name@ == item@.kind_name,
        row.time@ == relative_time(now, item@.timestamp),
        row.pinned == item@.pinned,
        row.pin_tooltip@ == if item@.pinned {
            "Unpin"@
        } else {
            "Pin"@
        },
        row.show_pin == show_pin,
        row.show_trash == show_trash,
        match row.content {
            RowContent::Picture => item@.thumbnail is Some && picture,
            RowContent::Text { text, monospace } => {
                &&& !(item@.thumbnail is Some && picture)
                &&& text@ == item@.preview
                &&& monospace == (item@.class == ContentClass::Code || item@.class
                    == ContentClass::File)
            },
        },
{
    let content = if item.thumbnail.is_some() && picture {
        RowContent::Picture
    } else {
        RowContent::Text {
            text: item.content_preview.clone(),
            monospace: item.content_type.class == ContentClass::Code || item.content_type.class
                == ContentClass::File,
        }
    };
    let pin_tooltip = if item.pinned {
        "Unpin".to_owned()
    } else {
        "Pin".to_owned()
    };
    RowView {
        icon: item.content_type.icon.clone(),
        kind_name: item.content_type.name.clone(),
        time: format_timestamp(now, item.timestamp),
        pinned: item.pinned,
        pin_tooltip,
        show_pin,
        show_trash,
        content,
    }
}

/// A widget, as far as the search for a button looks at it.
#[derive(Clone, Copy, Debug, PartialEq, Eq, Structural)]
pub struct WidgetMark {
    /// Whether the widget carries the wanted class.
    pub marked: bool,
    /// Whether the widget is a button.
    pub button: bool,
}

/// A widget of a row's header, with the widgets in it if it is a box.
pub struct HeaderWidget {
    pub mark: WidgetMark,
    pub children: Option<Vec<WidgetMark>>,
}

/// Where a widget is in a header.
#[derive(Clone, Copy, Debug, PartialEq, Eq, Structural)]
pub enum WidgetPath {
    /// The widget itself stands in the header.
    Top(usize),
    /// The widget stands in a box of the header.
    Nested(usize, usize),
}

/// The first marked widget among some; their number if there is none.
pub open spec fn first_marked(widgets: Seq<WidgetMark>) -> int
    decreases widgets.len(),
{
    if widgets.len() == 0 || widgets[0].marked {
        0
    } else {
        1 + first_marked(widgets.drop_first())
    }
}

/// Where the first marked widget in or below one widget of the header is.
pub open spec fn marked_in(widget: HeaderWidget, at: int) -> Option<(WidgetPath, bool)> {
    if widget.mark.marked {
        Some((WidgetPath::Top(at as usize), widget.mark.button))
    } else {
        match widget.children {
            Some(children) => if first_marked(children@) < children@.len() {
                Some(
                    (
                        WidgetPath::Nested(at as usize, first_marked(children@) as usize),
                        children@[first_marked(children@)].button,
                    ),
                )
            } else {
                None
            },
            None => None,
        }
    }
}

/// Where the first marked widget at or behind a place of the header is, and
/// whether it is a button.
pub open spec fn marked_from(header: Seq<HeaderWidget>, at: int) -> Option<(WidgetPath, bool)>
    decreases header.len() - at,
{
    if at < 0 || at >= header.len() {
        None
    } else {
        match marked_in(header[at], at) {
            Some(found) => Some(found),
            None => marked_from(header, at + 1),
        }
    }
}

proof fn lemma_first_marked(widgets: Seq<WidgetMark>)
    ensures
        0 <= first_marked(widgets) <= widgets.len(),
        first_marked(widgets) < widgets.len() ==> widgets[first_marked(widgets)].marked,
        forall|j: int| 0 <= j < first_marked(widgets) ==> !(#[trigger] widgets[j]).marked,
    decreases widgets.len(),
{
    if widgets.len() == 0 || widgets[0].marked {
    } else {
        let rest = widgets.drop_first();
        lemma_first_marked(rest);
        assert forall|j: int| 0 <= j < 1 + first_marked(rest) implies !(
        #[trigger] widgets[j]).marked by {
            if j > 0 {
                assert(widgets[j] == rest[j - 1]);
            }
        }
    }
}

fn find_marked(widgets: &Vec<WidgetMark>) -> (place: usize)
    ensures
        place == first_marked(widgets@),
        place <= widgets@.len(),
{
    proof {
        lemma_first_marked(widgets@);
    }
    let mut i: usize = 0;
    while i < widgets.len()
        invariant
            i <= first_marked(widgets@),
            0 <= first_marked(widgets@) <= widgets@.len(),
            first_marked(widgets@) < widgets@.len() ==> widgets@[first_marked(widgets@)].marked,
            forall|j: int| 0 <= j < first_marked(widgets@) ==> !(#[trigger] widgets@[j]).marked,
        decreases widgets@.len() - i,
    {
        if widgets[i].marked {
            return i;
        }
        i = i + 1;
    }
    i
}

/// Where the button with the wanted class is in a row's header.
pub open spec fn button_path(header: Seq<HeaderWidget>) -> Option<WidgetPath> {
    match marked_from(header, 0) {
        Some((found, true)) => Some(found),
        _ => None,
    }
}

/// Where the button with the wanted class is in a row's header: the first widget
/// that carries the class, in the order of the header and one level deep. If
/// that widget is no button, there is none.
pub fn find_button_in_row(header: &Vec<HeaderWidget>) -> (path: Option<WidgetPath>)
    ensures
        path == button_path(header@),
{
    let mut i: usize = 0;
    while i < header.len()
        invariant
            i <= header@.len(),
            marked_from(header@, 0) == marked_from(header@, i as int),
        decreases header@.len() - i,
    {
        let widget = &header[i];
        if widget.mark.marked {
            return if widget.mark.button {
                Some(WidgetPath::Top(i))
            } else {
                None
            };
        }
        if let Some(children) = &widget.children {
            let k: usize = find_marked(children);
            if k < children.len() {
                return if children[k].button {
                    Some(WidgetPath::Nested(i, k))
                } else {
                    None
                };
            }
        }
        i = i + 1;
    }
    None
}

/// The rows of a list whose button with the wanted class is to be shown or
/// hidden, each with the place of the button. A row without a header has none.
pub open spec fn rows_with_button(rows: Seq<Option<Vec<HeaderWidget>>>) -> Seq<(usize, WidgetPath)>
    decreases rows.len(),
{
    if rows.len() == 0 {
        seq![]
    } else {
        let before = rows_with_button(rows.drop_last());
        match rows.last() {
            Some(header) => match button_path(header@) {
                Some(path) => before.push(((rows.len() - 1) as usize, path)),
                None => before,
            },
            None => before,
        }
    }
}

/// The buttons with the wanted class in the rows of a list, from the first row to
/// the last.
pub fn find_buttons_in_rows(rows: &Vec<Option<Vec<HeaderWidget>>>) -> (buttons: Vec<
    (usize, WidgetPath),
>)
    ensures
        buttons@ == rows_with_button(rows@),
{
    let mut buttons: Vec<(usize, WidgetPath)> = Vec::new();
    let mut i: usize = 0;
    while i < rows.len()
        invariant
            i <= rows@.len(),
            buttons@ == rows_with_button(rows@.take(i as int)),
        decreases rows@.len() - i,
    {
        assert(rows@.take(i + 1).drop_last() =~= rows@.take(i as int));
        if let Some(header) = &rows[i] {
            if let Some(path) = find_button_in_row(header) {
                buttons.push((i, path));
            }
        }
        i = i + 1;
    }
    assert(rows@.take(i as int) =~= rows@);
    buttons
}

/// The time is told in whole units of the largest kind that fits, rounded down, and
/// in the plural but for one. What is less than half a minute old, or not yet there,
/// is told as new.
pub proof fn law_time_is_told_in_whole_units(now: u64, timestamp: u64, count: nat, rest: nat)
    ensures
        timestamp + 30 > now ==> relative_time(now, timestamp) == "Just now"@,
        now == timestamp + 60 * count + rest && rest < 60 && now >= timestamp + 30 && count < 60
            ==> relative_time(now, timestamp) == crate::text::decimal(count) + if count == 1 {
            " minute ago"@
        } else {
            " minutes ago"@
        },
        now == timestamp + 3600 * count + rest && rest < 3600 && 1 <= count < 24
            ==> relative_time(now, timestamp) == crate::text::decimal(count) + if count == 1 {
            " hour ago"@
        } else {
            " hours ago"@
        },
        now == timestamp + 86400 * count + rest && rest < 86400 && 1 <= count ==> relative_time(
            now,
            timestamp,
        ) == crate::text::decimal(count) + if count == 1 {
            " day ago"@
        } else {
            " days ago"@
        },
{
    reveal_strlit("");
    reveal_strlit("s");
    reveal_strlit(" ago");
    reveal_strlit(" minute");
    reveal_strlit(" hour");
    reveal_strlit(" day");
    reveal_strlit(" minute ago");
    reveal_strlit(" minutes ago");
    reveal_strlit(" hour ago");
    reveal_strlit(" hours ago");
    reveal_strlit(" day ago");
    reveal_strlit(" days ago");
    let number = crate::text::decimal(count);
    assert(number + " minute"@ + ""@ + " ago"@ =~= number + " minute ago"@);
    assert(number + " minute"@ + "s"@ + " ago"@ =~= number + " minutes ago"@);
    assert(number + " hour"@ + ""@ + " ago"@ =~= number + " hour ago"@);
    assert(number + " hour"@ + "s"@ + " ago"@ =~= number + " hours ago"@);
    assert(number + " day"@ + ""@ + " ago"@ =~= number + " day ago"@);
    assert(number + " day"@ + "s"@ + " ago"@ =~= number + " days ago"@);
}

/// Whether neither a widget of a header nor one in it carries the wanted class.
pub open spec fn is_unmarked(widget: HeaderWidget) -> bool {
    &&& !widget.mark.marked
    &&& widget.children matches Some(children) ==> forall|k: int|
        0 <= k < children@.len() ==> !(#[trigger] children@[k]).marked
}

proof fn lemma_marked_behind(header: Seq<HeaderWidget>, from: int, at: int)
    requires
        0 <= from <= at <= header.len(),
        forall|j: int| from <= j < at ==> is_unmarked(#[trigger] header[j]),
    ensures
        marked_from(header, from) == marked_from(header, at),
    decreases at - from,
{
    if from < at {
        let widget = header[from];
        assert(is_unmarked(widget));
        if let Some(children) = widget.children {
            lemma_first_marked(children@);
        }
        assert(marked_in(widget, from) is None);
        lemma_marked_behind(header, from + 1, at);
    }
}

/// The button of a row is the first widget of its header that carries the class, be
/// it in the header itself or in a box of it, provided that this widget is a button.
pub proof fn law_button_is_the_first_marked_widget(header: Seq<HeaderWidget>, at: usize)
    requires
        at <= header.len(),
        forall|j: int| 0 <= j < at ==> is_unmarked(#[trigger] header[j]),
    ensures
        at == header.len() ==> button_path(header) is None,
        at < header.len() && header[at as int].mark.marked ==> button_path(header)
            == if header[at as int].mark.button {
            Some(WidgetPath::Top(at))
        } else {
            None
        },
{
    lemma_marked_behind(header, 0, at as int);
}

/// A box of a header is searched from its first widget to its last.
pub proof fn law_button_is_the_first_marked_in_its_box(
    header: Seq<HeaderWidget>,
    at: usize,
    children: Vec<WidgetMark>,
    k: usize,
)
    requires
        at < header.len(),
        forall|j: int| 0 <= j < at ==> is_unmarked(#[trigger] header[j]),
        !header[at as int].mark.marked,
        header[at as int].children == Some(children),
        k < children@.len(),
        children@[k as int].marked,
        forall|j: int| 0 <= j < k ==> !(#[trigger] children@[j]).marked,
    ensures
        button_path(header) == if children@[k as int].button {
            Some(WidgetPath::Nested(at, k))
        } else {
            None
        },
{
    lemma_marked_behind(header, 0, at as int);
    lemma_first_marked(children@);
    let first = first_marked(children@);
    if first > k {
        assert(!children@[k as int].marked);
    } else if first < k {
        assert(!children@[first].marked);
    }
}

/// Every row whose header has the button is among those found, with the place of the
/// button, and no other row is; they come in the order of the list.
pub proof fn law_every_row_with_a_button_is_found(
    rows: Seq<Option<Vec<HeaderWidget>>>,
    row: usize,
    path: WidgetPath,
)
    requires
        rows.len() <= usize::MAX,
    ensures
        rows_with_button(rows).contains((row, path)) <==> row < rows.len() && (
        rows[row as int] matches Some(header) && button_path(header@) == Some(path)),
        forall|i: int, j: int|
            0 <= i < j < rows_with_button(rows).len() ==> (#[trigger] rows_with_button(rows)[i]).0
                < (#[trigger] rows_with_button(rows)[j]).0,
        forall|i: int|
            0 <= i < rows_with_button(rows).len() ==> (#[trigger] rows_with_button(rows)[i]).0
                < rows.len(),
    decreases rows.len(),
{
    let found = rows_with_button(rows);
    if rows.len() > 0 {
        let shorter = rows.drop_last();
        let before = rows_with_button(shorter);
        law_every_row_with_a_button_is_found(shorter, row, path);
        if before.contains((row, path)) {
            assert(found[before.index_of((row, path))] == (row, path));
        }
        if found.len() > before.len() {
            assert(found[before.len() as int] == found.last());
        }
        if found.contains((row, path)) {
            let i = found.index_of((row, path));
            if i < before.len() {
                assert(before[i] == (row, path));
            }
        }
    }
}

} // verus!
