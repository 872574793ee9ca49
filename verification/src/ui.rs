//! The rows of the tables that the screen shows, as plain values.

use crate::app::{App, AppView};
use crate::op::{ItemDetails, ItemDetailsField, ItemListEntry};
use crate::sort::{field_of, field_of_header, SortField};
use crate::text::{count_char, count_of, push_char, texts_of, to_chars};
use vstd::prelude::*;

verus! {

/// One row of a table: the text of each cell, the height in lines, and the
/// blank lines below the row.
#[derive(Debug, Clone, PartialEq, Eq)]
pub struct TableRow {
    pub cells: Vec<String>,
    pub height: u16,
    pub bottom_margin: u16,
}

/// The view of a `TableRow`.
pub struct TableRowView {
    pub cells: Seq<Seq<char>>,
    pub height: u16,
    pub bottom_margin: u16,
}

impl View for TableRow {
    type V = TableRowView;

    open spec fn view(&self) -> TableRowView {
        TableRowView {
            cells: texts_of(self.cells@),
            height: self.height,
            bottom_margin: self.bottom_margin,
        }
    }
}

/// The text that an entry shows in the column with a header: its id, title or
/// time of last change, and nothing in a column with any other header.
pub open spec fn cell_text(item: ItemListEntry, header: Seq<char>) -> Seq<char> {
    match field_of_header(header) {
        Some(SortField::Id) => item.id@,
        Some(SortField::Title) => item.title@,
        Some(SortField::UpdatedAt) => item.updated_at@,
        None => Seq::empty(),
    }
}

/// The largest number of line breaks in a cell among the first `n` columns,
/// and 1 where none has more.
pub open spec fn row_height(item: ItemListEntry, headers: Seq<Seq<char>>, n: int) -> nat
    decreases n,
{
    if n <= 0 {
        1
    } else {
        let rest = row_height(item, headers, n - 1);
        let here = count_of(cell_text(item, headers[n - 1]), '\n');
        if here > rest {
            here
        } else {
            rest
        }
    }
}

/// The row of the header line: one cell for each header, one line high, with
/// one blank line below.
pub open spec fn header_row_spec(headers: Seq<Seq<char>>) -> TableRowView {
    TableRowView { cells: headers, height: 1, bottom_margin: 1 }
}

/// The row of an entry in the list: one cell for each header, with one blank
/// line below. The height is the largest number of line breaks in a cell, at
/// least 1, cut to 16 bits.
pub open spec fn item_list_row_spec(item: ItemListEntry, headers: Seq<Seq<char>>) -> TableRowView {
    TableRowView {
        cells: Seq::new(headers.len(), |i: int| cell_text(item, headers[i])),
        height: (row_height(item, headers, headers.len() as int) % 0x10000) as u16,
        bottom_margin: 1,
    }
}

/// A field is shown where it has both a label and a value.
pub open spec fn is_shown(field: ItemDetailsField) -> bool {
    field.label is Some && field.value is Some
}

/// The row of a field in the entry view: its label and its value.
pub open spec fn detail_row_spec(field: ItemDetailsField) -> TableRowView {
    TableRowView { cells: seq![field.label->0@, field.value->0@], height: 1, bottom_margin: 0 }
}

/// The rows of the first `n` fields that are shown, in the order of the
/// fields.
pub open spec fn detail_rows_upto(fields: Seq<ItemDetailsField>, n: int) -> Seq<TableRowView>
    decreases n,
{
    if n <= 0 {
        Seq::empty()
    } else if is_shown(fields[n - 1]) {
        detail_rows_upto(fields, n - 1).push(detail_row_spec(fields[n - 1]))
    } else {
        detail_rows_upto(fields, n - 1)
    }
}

/// The views of a sequence of rows.
pub open spec fn rows_view(rows: Seq<TableRow>) -> Seq<TableRowView> {
    Seq::new(rows.len(), |i: int| rows[i]@)
}

/// The row of the header line.
pub fn new_header_row(headers: &Vec<String>) -> (row: TableRow)
    ensures
        row@ == header_row_spec(texts_of(headers@)),
{
    let mut cells: Vec<String> = Vec::new();
    let mut i: usize = 0;
    while i < headers.len()
        invariant
            i <= headers@.len(),
            cells@.len() == i,
            forall|j: int| 0 <= j < i ==> (#[trigger] cells@[j])@ == headers@[j]@,
        decreases headers@.len() - i,
    {
        cells.push(headers[i].clone());
        i += 1;
    }
    assert(texts_of(cells@) =~= texts_of(headers@));
    TableRow { cells, height: 1, bottom_margin: 1 }
}

/// The row of an entry in the list.
pub fn new_item_list_row(item: &ItemListEntry, headers: &Vec<String>) -> (row: TableRow)
    ensures
        row@ == item_list_row_spec(*item, texts_of(headers@)),
{
    let ghost names = texts_of(headers@);
    let mut cells: Vec<String> = Vec::new();
    let mut height: usize = 1;
    let mut i: usize = 0;
    while i < headers.len()
        invariant
            i <= headers@.len(),
            names == texts_of(headers@),
            cells@.len() == i,
            forall|j: int| 0 <= j < i ==> (#[trigger] cells@[j])@ == cell_text(*item, names[j]),
            height == row_height(*item, names, i as int),
        decreases headers@.len() - i,
    {
        let cell = match field_of(headers[i].as_str()) {
            Some(SortField::Id) => item.id.clone(),
            Some(SortField::Title) => item.title.clone(),
            Some(SortField::UpdatedAt) => item.updated_at.clone(),
            None => String::new(),
        };
        let breaks = count_char(&to_chars(cell.as_str()), '\n');
        if breaks > height {
            height = breaks;
        }
        cells.push(cell);
        i += 1;
    }
    assert(texts_of(cells@) =~= item_list_row_spec(*item, names).cells);
    TableRow { cells, height: (height % 0x10000) as u16, bottom_margin: 1 }
}

/// The rows of the list: one for each entry, in order.
pub fn item_list_rows(items: &Vec<ItemListEntry>, headers: &Vec<String>) -> (rows: Vec<TableRow>)
    ensures
        rows@.len() == items@.len(),
        forall|i: int|
            0 <= i < rows@.len() ==> (#[trigger] rows@[i])@ == item_list_row_spec(
                items@[i],
                texts_of(headers@),
            ),
{
    let mut rows: Vec<TableRow> = Vec::new();
    let mut i: usize = 0;
    while i < items.len()
        invariant
            i <= items@.len(),
            rows@.len() == i,
            forall|j: int|
                0 <= j < i ==> (#[trigger] rows@[j])@ == item_list_row_spec(
                    items@[j],
                    texts_of(headers@),
                ),
        decreases items@.len() - i,
    {
        rows.push(new_item_list_row(&items[i], headers));
        i += 1;
    }
    rows
}

/// The rows of the entry view: one for each field that has both a label and a
/// value, in the order of the fields.
pub fn item_rows(details: &ItemDetails) -> (rows: Vec<TableRow>)
    ensures
        rows_view(rows@) == detail_rows_upto(details.fields@, details.fields@.len() as int),
{
    let mut rows: Vec<TableRow> = Vec::new();
    let mut i: usize = 0;
    while i < details.fields.len()
        invariant
            i <= details.fields@.len(),
            rows_view(rows@) == detail_rows_upto(details.fields@, i as int),
        decreases details.fields@.len() - i,
    {
        let field = &details.fields[i];
        let ghost before = rows@;
        match (&field.label, &field.value) {
            (Some(label), Some(value)) => {
                let mut cells: Vec<String> = Vec::new();
                cells.push(label.clone());
                cells.push(value.clone());
                let row = TableRow { cells, height: 1, bottom_margin: 0 };
                assert(row@.cells =~= detail_row_spec(*field).cells);
                rows.push(row);
                assert(rows_view(rows@) =~= rows_view(before).push(row@));
            },
            _ => {},
        }
        i += 1;
    }
    rows
}

/// The rows of the table that the screen shows: those of the list in the list
/// view, those of the open entry in the entry view, none where no entry is
/// open.
pub fn visible_rows(app: &App) -> (rows: Vec<TableRow>)
    ensures
        match app.app_view {
            AppView::ItemListView => {
                &&& rows@.len() == app.items@.len()
                &&& forall|i: int|
                    0 <= i < rows@.len() ==> (#[trigger] rows@[i])@ == item_list_row_spec(
                        app.items@[i],
                        texts_of(app.headers@),
                    )
            },
            AppView::ItemView => match app.item_details {
                Some(details) => rows_view(rows@) == detail_rows_upto(
                    details.fields@,
                    details.fields@.len() as int,
                ),
                None => rows@.len() == 0,
            },
        },
{
    match app.app_view {
        AppView::ItemListView => item_list_rows(&app.items, &app.headers),
        AppView::ItemView => match &app.item_details {
            Some(details) => item_rows(details),
            None => Vec::new(),
        },
    }
}

/// The share of the width that each of `columns` columns gets, in percent,
/// rounded down. `None` where there is no column.
pub fn column_percentage(columns: usize) -> (r: Option<u16>)
    ensures
        columns == 0 <==> r is None,
        columns > 0 ==> r == Some((100int / columns as int) as u16),
{
    if columns == 0 {
        None
    } else {
        Some((100 / columns) as u16)
    }
}

/// The characters that take the place of a character when a text is
/// scrambled: the vowels for a vowel, the letters for another letter, the
/// digits for a digit, each in the same case, and `?` for anything else.
pub open spec fn charset_of(c: char) -> Seq<char> {
    if c == 'a' || c == 'e' || c == 'i' || c == 'o' || c == 'u' {
        "aeiou"@
    } else if c == 'A' || c == 'E' || c == 'I' || c == 'O' || c == 'U' {
        "AEIOU"@
    } else if 'a' <= c && c <= 'z' {
        "abcdefghijklmnopqrstuvwxyz"@
    } else if 'A' <= c && c <= 'Z' {
        "ABCDEFGHIJKLMNOPQRSTUVWXYZ"@
    } else if '0' <= c && c <= '9' {
        "0123456789"@
    } else {
        "?"@
    }
}

/// Calls `fastrand::usize` on the range `0..n`. Taken from its source, not
/// proved: for a range that is not empty it returns a number of the range.
/// Which one is left open, and two calls may give different numbers.
#[verifier::external_body]
fn random_below(n: usize) -> (r: usize)
    requires
        n > 0,
    ensures
        r < n,
{
    fastrand::usize(0..n)
}

/// The characters that take the place of `c`.
pub fn charset_for(c: char) -> (set: Vec<char>)
    ensures
        set@ == charset_of(c),
        set@.len() > 0,
{
    proof {
        reveal_strlit("aeiou");
        reveal_strlit("AEIOU");
        reveal_strlit("abcdefghijklmnopqrstuvwxyz");
        reveal_strlit("ABCDEFGHIJKLMNOPQRSTUVWXYZ");
        reveal_strlit("0123456789");
        reveal_strlit("?");
    }
    if c == 'a' || c == 'e' || c == 'i' || c == 'o' || c == 'u' {
        to_chars("aeiou")
    } else if c == 'A' || c == 'E' || c == 'I' || c == 'O' || c == 'U' {
        to_chars("AEIOU")
    } else if 'a' <= c && c <= 'z' {
        to_chars("abcdefghijklmnopqrstuvwxyz")
    } else if 'A' <= c && c <= 'Z' {
        to_chars("ABCDEFGHIJKLMNOPQRSTUVWXYZ")
    } else if '0' <= c && c <= '9' {
        to_chars("0123456789")
    } else {
        to_chars("?")
    }
}

/// The character of `set` at position `pick`. This is the step of
/// `scramble_string` that follows the draw of a random position.
pub fn scrambled_char(set: &Vec<char>, pick: usize) -> (c: char)
    requires
        pick < set@.len(),
    ensures
        c == set@[pick as int],
        set@.contains(c),
{
    set[pick]
}

/// Replaces every character of a text by a random character of its kind, so
/// that the text keeps its shape and loses its content: the result is as long
/// as the text, and each of its characters is one of those that may take the
/// place of the character there.
pub fn scramble_string(s_old: &String) -> (s_new: String)
    ensures
        s_new@.len() == s_old@.len(),
        forall|i: int|
            0 <= i < s_old@.len() ==> charset_of(s_old@[i]).contains(#[trigger] s_new@[i]),
{
    let old_chars = to_chars(s_old.as_str());
    let mut s_new = String::new();
    let mut i: usize = 0;
    while i < old_chars.len()
        invariant
            i <= old_chars@.len(),
            old_chars@ == s_old@,
            s_new@.len() == i,
            forall|j: int| 0 <= j < i ==> charset_of(s_old@[j]).contains(#[trigger] s_new@[j]),
        decreases old_chars@.len() - i,
    {
        let set = charset_for(old_chars[i]);
        let pick = random_below(set.len());
        push_char(&mut s_new, scrambled_char(&set, pick));
        i += 1;
    }
    s_new
}

} // verus!
