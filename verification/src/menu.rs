//! The format menu offered after files arrive: its text and its buttons.
use vstd::prelude::*;
use crate::files::FileInfo;
use crate::text::{decimal, push_decimal, to_uppercase, uppercase};

verus! {

/// A button of the inline menu: the text it shows and the data it sends back.
#[derive(Debug)]
pub struct Button {
    pub label: String,
    pub data: String,
}

/// A button as the text it shows and the data it sends back.
pub type ButtonView = (Seq<char>, Seq<char>);

/// The button that picks `format`: it shows the format in capitals and sends it back.
pub open spec fn format_button(format: Seq<char>) -> ButtonView {
    (uppercase(format), format)
}

/// The button that cancels the conversion.
pub open spec fn cancel_button() -> ButtonView {
    ("❌ Отмена"@, "cancel"@)
}

/// Items laid out in rows of three: each item joins the last row unless that row is full.
pub open spec fn rows_of<T>(items: Seq<T>) -> Seq<Seq<T>>
    decreases items.len(),
{
    if items.len() == 0 {
        Seq::empty()
    } else {
        let prev = rows_of(items.drop_last());
        if prev.len() > 0 && prev.last().len() < 3 {
            prev.drop_last().push(prev.last().push(items.last()))
        } else {
            prev.push(seq![items.last()])
        }
    }
}

/// The menu for `formats`: one button per format, three to a row, in order, then a row with
/// the cancel button.
pub open spec fn menu_for(formats: Seq<Seq<char>>) -> Seq<Seq<ButtonView>> {
    rows_of(formats.map_values(|f: Seq<char>| format_button(f))).push(seq![cancel_button()])
}

/// A row of buttons as views.
pub open spec fn row_view(row: Vec<Button>) -> Seq<ButtonView> {
    row@.map_values(|b: Button| (b.label@, b.data@))
}

/// Rows of buttons as views.
pub open spec fn keyboard_view(rows: Seq<Vec<Button>>) -> Seq<Seq<ButtonView>> {
    rows.map_values(|r: Vec<Button>| row_view(r))
}

/// Concatenation of rows.
pub open spec fn flatten<T>(rows: Seq<Seq<T>>) -> Seq<T>
    decreases rows.len(),
{
    if rows.len() == 0 {
        Seq::empty()
    } else {
        flatten(rows.drop_last()) + rows.last()
    }
}

/// Rows of three hold every item once, in order: all rows but the last are full, and none is
/// empty.
pub proof fn lemma_rows_of_three<T>(items: Seq<T>)
    ensures
        flatten(rows_of(items)) == items,
        rows_of(items).len() == (items.len() + 2) / 3,
        items.len() > 0 ==> rows_of(items).len() > 0 && items.len() == 3 * (rows_of(items).len()
            - 1) + rows_of(items).last().len(),
        forall|r: int|
            0 <= r < rows_of(items).len() ==> 0 < #[trigger] rows_of(items)[r].len() <= 3,
        forall|r: int| 0 <= r < rows_of(items).len() - 1 ==> #[trigger] rows_of(items)[r].len() == 3,
    decreases items.len(),
{
    if items.len() > 0 {
        let rest = items.drop_last();
        lemma_rows_of_three(rest);
        let prev = rows_of(rest);
        let cur = rows_of(items);
        if prev.len() > 0 && prev.last().len() < 3 {
            assert(flatten(prev) == flatten(prev.drop_last()) + prev.last());
            assert(cur.drop_last() =~= prev.drop_last());
            assert(flatten(cur) =~= flatten(prev.drop_last()) + prev.last().push(items.last()));
            assert(items =~= rest.push(items.last()));
        } else {
            assert(cur.drop_last() =~= prev);
            assert(flatten(cur) =~= flatten(prev) + seq![items.last()]);
            assert(items =~= rest.push(items.last()));
        }
    }
}

fn cancel() -> (b: Button)
    ensures
        (b.label@, b.data@) == cancel_button(),
{
    Button { label: String::from_str("❌ Отмена"), data: String::from_str("cancel") }
}

/// The menu offering `formats`: a button per format, three to a row, then a cancel row.
pub fn format_menu(formats: &Vec<String>) -> (rows: Vec<Vec<Button>>)
    ensures
        keyboard_view(rows@) == menu_for(formats.deep_view()),
{
    let ghost buttons = formats.deep_view().map_values(|f: Seq<char>| format_button(f));
    let mut keyboard: Vec<Vec<Button>> = Vec::new();
    let mut row: Vec<Button> = Vec::new();
    let mut i: usize = 0;
    while i < formats.len()
        invariant
            i <= formats.len(),
            buttons == formats.deep_view().map_values(|f: Seq<char>| format_button(f)),
            row.len() < 3,
            forall|r: int| 0 <= r < keyboard.len() ==> #[trigger] keyboard@[r].len() == 3,
            rows_of(buttons.take(i as int)) == if row.len() > 0 {
                keyboard_view(keyboard@).push(row_view(row))
            } else {
                keyboard_view(keyboard@)
            },
        decreases formats.len() - i,
    {
        let f = &formats[i];
        let button = Button { label: to_uppercase(f.as_str()), data: f.clone() };
        let ghost prev_kb = keyboard_view(keyboard@);
        let ghost prev_row = row_view(row);
        assert(buttons.take(i + 1).drop_last() =~= buttons.take(i as int));
        assert(buttons.take(i + 1).last() == buttons[i as int]);
        assert(buttons[i as int] == (button.label@, button.data@));
        row.push(button);
        assert(row_view(row) =~= prev_row.push(buttons[i as int]));
        proof {
            let prev = rows_of(buttons.take(i as int));
            let items = buttons.take(i + 1);
            assert(items.drop_last() == buttons.take(i as int));
            assert(items.len() > 0);
            assert(rows_of(items) == if prev.len() > 0 && prev.last().len() < 3 {
                prev.drop_last().push(prev.last().push(items.last()))
            } else {
                prev.push(seq![items.last()])
            });
            if prev_row.len() > 0 {
                assert(prev.drop_last() =~= prev_kb);
                assert(prev.last() == prev_row);
                assert(prev.last().len() < 3);
                assert(prev.last().push(items.last()) =~= row_view(row));
                assert(rows_of(items) =~= prev_kb.push(row_view(row)));
            } else {
                if prev_kb.len() > 0 {
                    assert(prev_kb.last() == row_view(keyboard@[keyboard.len() - 1]));
                    assert(keyboard@[keyboard.len() - 1].len() == 3);
                    assert(prev_kb.last().len() == 3);
                }
                assert(row_view(row) =~= seq![buttons[i as int]]);
                assert(prev =~= prev_kb);
                assert(rows_of(items) =~= prev_kb.push(row_view(row)));
            }
            assert(rows_of(buttons.take(i + 1)) == prev_kb.push(row_view(row)));
        }
        if row.len() == 3 {
            let ghost kb_before = keyboard@;
            keyboard.push(row);
            assert(keyboard_view(keyboard@) =~= keyboard_view(kb_before).push(
                row_view(keyboard@[keyboard.len() - 1]),
            ));
            row = Vec::new();
        }
        i = i + 1;
    }
    assert(buttons.take(formats.len() as int) =~= buttons);
    if row.len() > 0 {
        let ghost kb_before = keyboard@;
        keyboard.push(row);
        assert(keyboard_view(keyboard@) =~= keyboard_view(kb_before).push(
            row_view(keyboard@[keyboard.len() - 1]),
        ));
    }
    let ghost kb_before = keyboard@;
    let mut last: Vec<Button> = Vec::new();
    last.push(cancel());
    assert(row_view(last) =~= seq![cancel_button()]);
    keyboard.push(last);
    assert(keyboard_view(keyboard@) =~= keyboard_view(kb_before).push(seq![cancel_button()]));
    keyboard
}

/// The text above the menu: the file's name for one file, the count for several.
pub open spec fn selection_prompt(files: Seq<FileInfo>) -> Seq<char> {
    if files.len() == 1 {
        "Файл: "@ + files[0].file_name@ + "\nВыбери целевой формат:"@
    } else {
        "Получено файлов: "@ + decimal(files.len()) + "\nВыбери целевой формат для всех файлов:"@
    }
}

/// The text above the menu for `files`.
pub fn selection_text(files: &Vec<FileInfo>) -> (res: String)
    ensures
        res@ == selection_prompt(files@),
{
    if files.len() == 1 {
        let mut text = String::from_str("Файл: ");
        text.append(files[0].file_name.as_str());
        text.append("\nВыбери целевой формат:");
        text
    } else {
        let mut text = String::from_str("Получено файлов: ");
        push_decimal(&mut text, files.len());
        text.append("\nВыбери целевой формат для всех файлов:");
        text
    }
}

} // verus!
