//! What a terminal shows when it carries out the orders for a screen.
use vstd::prelude::*;

use crate::preview::PartView;
use crate::preview::fitted_parts;
use crate::preview::law_fitted_parts;
use crate::preview::law_part_alone;
use crate::preview::law_parts_in_turn;
use crate::preview::law_preview_lines;
use crate::preview::law_preview_shape;
use crate::preview::painted;
use crate::preview::preview_lines;
use crate::preview::preview_text;
use crate::preview::visible;
use crate::screen::Attribute;
use crate::screen::Color;
use crate::screen::HelpLine;
use crate::screen::Op;
use crate::screen::Orders;
use crate::screen::help_header;
use crate::screen::help_row;
use crate::screen::help_rows;
use crate::screen::help_text;
use crate::screen::rowwise;
use crate::screen::small_message;
use crate::screen::small_screen;
use crate::state::Mode;
use crate::state::StateView;
use crate::text::blanks;
use crate::text::decimal;
use crate::text::fitted;
use crate::text::law_fitted_width;
use crate::text::padded;
use crate::theme::Theme;
use crate::theme::ThemeView;

verus! {

/// How a terminal stands: where it writes next, and how.
#[verifier::ext_equal]
pub struct Pen {
    pub col: int,
    pub row: int,
    pub fg: Option<Color>,
    pub bg: Option<Color>,
    pub bold: bool,
    pub reverse: bool,
    /// The cursor can be seen.
    pub cursor: bool,
    /// How often the screen was cleared.
    pub clears: int,
}

/// A text that a terminal has written, with where it starts and how it looks.
#[verifier::ext_equal]
pub struct Writing {
    pub col: int,
    pub row: int,
    pub text: Seq<char>,
    pub fg: Option<Color>,
    pub bg: Option<Color>,
    pub bold: bool,
    pub reverse: bool,
}

/// A terminal before it gets any orders.
pub open spec fn fresh() -> Pen {
    Pen {
        col: 0,
        row: 0,
        fg: None,
        bg: None,
        bold: false,
        reverse: false,
        cursor: true,
        clears: 0,
    }
}

impl Pen {
    /// How the terminal stands after one order.
    pub open spec fn step(self, op: Op<Seq<char>>) -> Pen {
        match op {
            Op::Clear => Pen { clears: self.clears + 1, ..self },
            Op::MoveTo(col, row) => Pen { col: col as int, row: row as int, ..self },
            Op::MoveDown(n) => Pen { row: self.row + n, ..self },
            Op::MoveToColumn(col) => Pen { col: col as int, ..self },
            Op::Foreground(color) => Pen { fg: Some(color), ..self },
            Op::Background(color) => Pen { bg: Some(color), ..self },
            Op::ResetColor => Pen { fg: None, bg: None, ..self },
            Op::Attribute(Attribute::Bold) => Pen { bold: true, ..self },
            Op::Attribute(Attribute::Reset) => Pen {
                fg: None,
                bg: None,
                bold: false,
                reverse: false,
                ..self
            },
            Op::Attribute(Attribute::Reverse) => Pen { reverse: true, ..self },
            Op::Attribute(Attribute::NoReverse) => Pen { reverse: false, ..self },
            Op::Print(text) => Pen { col: self.col + text.len(), ..self },
            Op::ShowCursor => Pen { cursor: true, ..self },
            Op::HideCursor => Pen { cursor: false, ..self },
        }
    }

    /// A text written here and now.
    pub open spec fn writes(self, text: Seq<char>) -> Writing {
        Writing {
            col: self.col,
            row: self.row,
            text,
            fg: self.fg,
            bg: self.bg,
            bold: self.bold,
            reverse: self.reverse,
        }
    }

    /// What one order has the terminal write: the text to print, if there is any.
    pub open spec fn writing(self, op: Op<Seq<char>>) -> Seq<Writing> {
        match op {
            Op::Print(text) => if text.len() > 0 {
                seq![self.writes(text)]
            } else {
                Seq::empty()
            },
            _ => Seq::empty(),
        }
    }

    /// How the terminal stands after these orders.
    pub open spec fn after(self, ops: Orders) -> Pen
        decreases ops.len(),
    {
        if ops.len() == 0 {
            self
        } else {
            self.after(ops.drop_last()).step(ops.last())
        }
    }

    /// What these orders have the terminal write, in order.
    pub open spec fn written(self, ops: Orders) -> Seq<Writing>
        decreases ops.len(),
    {
        if ops.len() == 0 {
            Seq::empty()
        } else {
            self.written(ops.drop_last()) + self.after(ops.drop_last()).writing(ops.last())
        }
    }
}

/// Orders are carried out one after the other.
pub proof fn law_orders_in_turn(pen: Pen, a: Orders, b: Orders)
    ensures
        pen.after(a + b) == pen.after(a).after(b),
        pen.written(a + b) == pen.written(a) + pen.after(a).written(b),
    decreases b.len(),
{
    if b.len() == 0 {
        assert(a + b =~= a);
        assert(pen.written(a) + pen.after(a).written(b) =~= pen.written(a));
    } else {
        law_orders_in_turn(pen, a, b.drop_last());
        assert((a + b).drop_last() =~= a + b.drop_last());
        assert((a + b).last() == b.last());
        assert(pen.written(a + b) =~= pen.written(a) + pen.after(a).written(b));
    }
}

proof fn lemma_run_one(pen: Pen, a: Op<Seq<char>>)
    ensures
        pen.after(seq![a]) == pen.step(a),
        pen.written(seq![a]) == pen.writing(a),
{
    reveal_with_fuel(Pen::after, 2);
    reveal_with_fuel(Pen::written, 2);
    assert(pen.written(seq![a]) =~= pen.writing(a));
}

proof fn lemma_run_two(pen: Pen, a: Op<Seq<char>>, b: Op<Seq<char>>)
    ensures
        pen.after(seq![a, b]) == pen.step(a).step(b),
        pen.written(seq![a, b]) == pen.writing(a) + pen.step(a).writing(b),
{
    reveal_with_fuel(Pen::after, 3);
    reveal_with_fuel(Pen::written, 3);
    assert(pen.written(seq![a, b]) =~= pen.writing(a) + pen.step(a).writing(b));
}

proof fn lemma_run_three(pen: Pen, a: Op<Seq<char>>, b: Op<Seq<char>>, c: Op<Seq<char>>)
    ensures
        pen.after(seq![a, b, c]) == pen.step(a).step(b).step(c),
        pen.written(seq![a, b, c]) == pen.writing(a) + pen.step(a).writing(b) + pen.step(a).step(b).writing(c),
{
    reveal_with_fuel(Pen::after, 4);
    reveal_with_fuel(Pen::written, 4);
    assert(pen.written(seq![a, b, c]) =~= pen.writing(a) + pen.step(a).writing(b) + pen.step(a).step(b).writing(c));
}

/// The orders clear the screen before anything else, and then no more.
pub open spec fn cleared_first(ops: Orders) -> bool {
    ops.len() > 0 && ops[0] == Op::<Seq<char>>::Clear && fresh().after(ops).clears == 1
}

/// On a screen that is too small nothing is shown but a complaint with its size and the size
/// that is needed, in red and in the middle.
pub proof fn law_small_screen<A>(s: StateView<A>, theme: Option<&Theme>)
    requires
        0 <= s.cols <= 0xffff && 0 <= s.rows <= 0xffff,
        s.cols < 15 || s.rows < 7,
    ensures
        ({
            let shown = fresh().written(s.screen(theme));
            let text = "Window too small ("@ + decimal(s.cols as nat) + "x"@ + decimal(
                s.rows as nat,
            ) + "), need 15x7"@;
            &&& shown.len() == 1
            &&& shown[0].text == text
            &&& shown[0].row == s.rows / 2
            &&& shown[0].col == if text.len() < s.cols {
                (s.cols - text.len()) / 2
            } else {
                0
            }
            &&& shown[0].fg == Some(Color::Red)
        }),
        cleared_first(s.screen(theme)),
{
    reveal_strlit("Window too small (");
    reveal_strlit("), need ");
    reveal_strlit("), need 15x7");
    reveal_strlit("x");
    reveal_with_fuel(decimal, 3);
    let text = "Window too small ("@ + decimal(s.cols as nat) + "x"@ + decimal(s.rows as nat)
        + "), need 15x7"@;
    assert("), need "@ + decimal(15) + "x"@ + decimal(7) =~= "), need 15x7"@);
    assert(small_message(s.cols as nat, s.rows as nat) =~= text);
    let start: Orders = seq![Op::Clear, Op::MoveTo(0, 0)];
    let complaint = small_screen(s.cols as u16, s.rows as u16);
    let front: Orders = seq![complaint[0], complaint[1]];
    let back: Orders = seq![complaint[2], complaint[3]];
    assert(complaint =~= front + back);
    lemma_run_two(fresh(), Op::Clear, Op::MoveTo(0, 0));
    assert(s.screen(theme) == start + complaint);
    let pen = fresh().after(start);
    assert(pen == (Pen { clears: 1, ..fresh() }));
    assert(fresh().written(start) =~= Seq::empty());
    law_orders_in_turn(fresh(), start, complaint);
    let place = pen.step(complaint[0]).step(complaint[1]);
    assert(complaint[2] == Op::Print(text));
    assert(text.len() > 0);
    lemma_run_two(pen, complaint[0], complaint[1]);
    lemma_run_two(place, complaint[2], complaint[3]);
    law_orders_in_turn(pen, front, back);
    assert(pen.written(complaint) =~= seq![place.writes(text)]);
    assert(fresh().written(s.screen(theme)) =~= seq![place.writes(text)]);
}

impl Pen {
    /// The terminal writes plainly.
    pub open spec fn plain(self) -> bool {
        self.fg is None && self.bg is None && !self.bold && !self.reverse
    }
}

/// What a row of the list has to look like: in cyan if its theme is the current one, in
/// reverse if it is the selected entry.
pub open spec fn entry_writing<A>(s: StateView<A>, row: int, text: Seq<char>) -> Writing {
    Writing {
        col: 0,
        row,
        text,
        fg: if s.current_theme == Some(s.list[s.offset + row].name) {
            Some(Color::Cyan)
        } else {
            None
        },
        bg: None,
        bold: false,
        reverse: s.offset + row == s.index,
    }
}

/// The text in a row of the list, cut or filled up to the columns of the list but two.
pub open spec fn entry_line<A>(s: StateView<A>, row: int) -> Seq<char> {
    fitted(s.entry_text(s.list[s.offset + row]), (s.list_cols() - 2) as nat)
}

proof fn lemma_entry_row<A>(s: StateView<A>, row: int, pen: Pen)
    requires
        s.list_cols() > 2,
        pen.plain(),
        pen.col == 0,
        pen.row == row,
    ensures
        pen.after(s.entry_row(row)) == (Pen { row: row + 1, ..pen }),
        pen.written(s.entry_row(row)) == seq![entry_writing(s, row, entry_line(s, row))],
{
    let t = s.list[s.offset + row];
    let text = entry_line(s, row);
    law_fitted_width(s.entry_text(t), (s.list_cols() - 2) as nat);
    let color: Orders = if s.current_theme == Some(t.name) {
        seq![Op::Foreground(Color::Cyan)]
    } else {
        Seq::empty()
    };
    let entry: Orders = if s.offset + row == s.index {
        seq![
            Op::Attribute(Attribute::Reverse),
            Op::Print(text),
            Op::Attribute(Attribute::NoReverse),
        ]
    } else {
        seq![Op::Print(text)]
    };
    let end: Orders = seq![Op::MoveDown(1), Op::MoveToColumn(0), Op::ResetColor];
    assert(s.entry_row(row) == color + entry + end);
    law_orders_in_turn(pen, color, entry);
    law_orders_in_turn(pen, color + entry, end);
    let colored = pen.after(color);
    let expected = entry_writing(s, row, text);
    let reverse = Op::<Seq<char>>::Attribute(Attribute::Reverse);
    let no_reverse = Op::<Seq<char>>::Attribute(Attribute::NoReverse);
    lemma_run_one(pen, Op::Foreground(Color::Cyan));
    lemma_run_one(colored, Op::Print(text));
    lemma_run_three(colored, reverse, Op::Print(text), no_reverse);
    lemma_run_three(colored.after(entry), Op::MoveDown(1), Op::MoveToColumn(0), Op::ResetColor);
    assert(pen.written(color) =~= Seq::empty());
    assert(colored.written(entry) =~= seq![expected]);
    assert(colored.after(entry).written(end) =~= Seq::empty());
    assert(pen.written(s.entry_row(row)) =~= seq![expected]);
}

proof fn lemma_entry_rows<A>(s: StateView<A>, rows: spec_fn(int) -> Orders, n: int, pen: Pen)
    requires
        0 <= n,
        s.list_cols() > 2,
        pen.plain(),
        pen.col == 0,
        pen.row == 0,
        forall|row: int| #[trigger] rows(row) == s.entry_row(row),
    ensures
        pen.after(rowwise(n, rows)) == (Pen { row: n, ..pen }),
        pen.written(rowwise(n, rows)).len() == n,
        forall|row: int|
            0 <= row < n ==> #[trigger] pen.written(rowwise(n, rows))[row] == entry_writing(
                s,
                row,
                entry_line(s, row),
            ),
    decreases n,
{
    if n > 0 {
        lemma_entry_rows(s, rows, n - 1, pen);
        let before = rowwise(n - 1, rows);
        law_orders_in_turn(pen, before, rows(n - 1));
        lemma_entry_row(s, n - 1, pen.after(before));
    }
}

/// The columns of the list and of the preview: from 34 columns on the list takes half of the
/// screen but four, and else all of it. The preview takes what is left and one more.
pub proof fn law_columns<A>(s: StateView<A>)
    requires
        0 <= s.cols,
    ensures
        s.cols >= 34 ==> s.list_cols() == s.cols / 2 - 4,
        s.cols < 34 ==> s.list_cols() == s.cols,
        s.preview_cols() == s.cols - s.list_cols() + 1,
{
}

/// An entry of the list says by a star whether it is a favourite, by a sun or a moon whether it
/// is light or dark, and then its name behind two blanks.
pub proof fn law_entry_text<A>(s: StateView<A>, t: ThemeView)
    ensures
        s.entry_text(t).len() == 4 + t.name.len(),
        s.favourites.contains(t.name) ==> s.entry_text(t)[0] == '★',
        !s.favourites.contains(t.name) ==> s.entry_text(t)[0] == ' ',
        t.is_light ==> s.entry_text(t)[1] == '☀',
        !t.is_light ==> s.entry_text(t)[1] == '⏾',
        s.entry_text(t)[2] == ' ' && s.entry_text(t)[3] == ' ',
        s.entry_text(t).skip(4) == t.name,
{
    reveal_strlit("★");
    reveal_strlit(" ");
    reveal_strlit("☀");
    reveal_strlit("⏾");
    reveal_strlit("  ");
    assert(s.entry_text(t).skip(4) =~= t.name);
}

/// A screen that is large enough, while the list is shown, shows one entry in each row from the
/// top on, as many as there are from the offset or as fit above the bottom line. The selected
/// entry, and no other, is in reverse, and the current theme in cyan.
pub proof fn law_list_drawn<A>(s: StateView<A>, pen: Pen)
    requires
        s.cols >= 15 && s.rows >= 7,
        0 <= s.offset,
        pen.plain(),
        pen.col == 0,
        pen.row == 0,
    ensures
        ({
            let shown = pen.written(s.list_area());
            let left = s.list.len() - s.offset;
            &&& left <= 0 ==> shown.len() == 0
            &&& 0 <= left <= s.rows - 1 ==> shown.len() == left
            &&& left > s.rows - 1 ==> shown.len() == s.rows - 1
            &&& forall|row: int|
                0 <= row < shown.len() ==> #[trigger] shown[row] == entry_writing(
                    s,
                    row,
                    entry_line(s, row),
                )
        }),
        pen.after(s.list_area()) == (Pen { row: s.shown_entries(), ..pen }),
{
    lemma_entry_rows(s, |row: int| s.entry_row(row), s.shown_entries(), pen);
}

/// No character that is shown goes unsent.
proof fn lemma_painted_length(parts: Seq<PartView>)
    ensures
        painted(parts).len() >= visible(parts).len(),
    decreases parts.len(),
{
    if parts.len() > 0 {
        let less = parts.drop_last();
        let last = seq![parts.last()];
        lemma_painted_length(less);
        law_part_alone(parts.last());
        law_parts_in_turn(less, last);
        assert(less + last =~= parts);
    }
}

/// What a row of the preview has to look like: the line for this row, or blanks if there is
/// none, beside the list and on the background of the theme.
pub open spec fn preview_writing<A>(s: StateView<A>, theme: Theme, row: int) -> Writing {
    Writing {
        col: s.list_cols() - 1,
        row,
        text: if row < 24 {
            painted(fitted_parts(preview_lines(theme.name@, theme.colors)[row], s.preview_cols()))
        } else {
            blanks(s.preview_cols())
        },
        fg: None,
        bg: Some(Color::Exact(theme.background)),
        bold: false,
        reverse: false,
    }
}

proof fn lemma_preview_row<A>(s: StateView<A>, theme: Theme, row: int, pen: Pen)
    requires
        15 <= s.cols <= 0xffff,
        0 <= row <= 0xffff,
        pen.fg is None && !pen.bold && !pen.reverse,
    ensures
        pen.written(s.preview_row(theme, row)) == seq![preview_writing(s, theme, row)],
        ({
            let after = pen.after(s.preview_row(theme, row));
            after.fg is None && !after.bold && !after.reverse && after.cursor == pen.cursor
                && after.clears == pen.clears
        }),
{
    law_preview_shape(theme.name@, theme.colors);
    law_preview_lines(theme.name@, theme.colors, s.preview_cols());
    let expected = preview_writing(s, theme, row);
    let lines = preview_text(theme.name@, theme.colors, s.preview_cols());
    if row < 24 {
        let parts = fitted_parts(preview_lines(theme.name@, theme.colors)[row], s.preview_cols());
        law_fitted_parts(preview_lines(theme.name@, theme.colors)[row], s.preview_cols());
        lemma_painted_length(parts);
        assert(lines[row].len() > 0);
    }
    let line = if row < 24 {
        lines[row]
    } else {
        Seq::empty()
    };
    let place = Op::<Seq<char>>::MoveTo((s.list_cols() - 1) as u16, row as u16);
    let ground = Op::<Seq<char>>::Background(Color::Exact(theme.background));
    let rest = Op::Print(blanks(s.preview_cols()));
    let start: Orders = seq![place, ground, Op::Print(line)];
    assert(s.preview_row(theme, row) =~= if row < 24 {
        start
    } else {
        start + seq![rest]
    });
    lemma_run_three(pen, place, ground, Op::Print(line));
    lemma_run_one(pen.after(start), rest);
    law_orders_in_turn(pen, start, seq![rest]);
    assert(pen.written(s.preview_row(theme, row)) =~= seq![expected]);
}

proof fn lemma_preview_rows<A>(
    s: StateView<A>,
    theme: Theme,
    rows: spec_fn(int) -> Orders,
    n: int,
    pen: Pen,
)
    requires
        15 <= s.cols <= 0xffff,
        0 <= n <= 0xffff,
        pen.fg is None && !pen.bold && !pen.reverse,
        forall|row: int| #[trigger] rows(row) == s.preview_row(theme, row),
    ensures
        ({
            let after = pen.after(rowwise(n, rows));
            after.fg is None && !after.bold && !after.reverse && after.cursor == pen.cursor
                && after.clears == pen.clears
        }),
        pen.written(rowwise(n, rows)).len() == n,
        forall|row: int|
            0 <= row < n ==> #[trigger] pen.written(rowwise(n, rows))[row] == preview_writing(
                s,
                theme,
                row,
            ),
    decreases n,
{
    if n > 0 {
        lemma_preview_rows(s, theme, rows, n - 1, pen);
        let before = rowwise(n - 1, rows);
        law_orders_in_turn(pen, before, rows(n - 1));
        lemma_preview_row(s, theme, n - 1, pen.after(before));
    }
}

/// The preview fills all rows but the bottom line, each with its line of the preview, behind
/// the list and up to the edge of the screen.
pub proof fn law_preview_drawn<A>(s: StateView<A>, theme: Theme, pen: Pen)
    requires
        15 <= s.cols <= 0xffff && 7 <= s.rows <= 0xffff,
        pen.plain(),
    ensures
        pen.written(s.preview_area(theme)).len() == s.rows - 1,
        forall|row: int|
            0 <= row < s.rows - 1 ==> #[trigger] pen.written(s.preview_area(theme))[row]
                == preview_writing(s, theme, row),
        pen.after(s.preview_area(theme)) == (Pen { col: 0, row: 0, ..pen }),
{
    let rows = |row: int| s.preview_row(theme, row);
    let end: Orders = seq![Op::MoveTo(0, 0), Op::ResetColor];
    lemma_preview_rows(s, theme, rows, s.rows - 1, pen);
    let before = rowwise(s.rows - 1, rows);
    assert(s.preview_area(theme) == before + end);
    law_orders_in_turn(pen, before, end);
    lemma_run_two(pen.after(before), Op::MoveTo(0, 0), Op::ResetColor);
    assert(pen.after(before).written(end) =~= Seq::empty());
    assert(pen.written(s.preview_area(theme)) =~= pen.written(before));
}

/// The bottom line of the screen: the query if one is typed or there is one, the adjustments
/// while they are typed, and while the list has the keyboard where the selection stands, if
/// there is room for that, and a grey question mark near the edge.
pub open spec fn bottom_writings<A>(s: StateView<A>) -> Seq<Writing> {
    let bottom = Pen { row: s.rows, ..fresh() };
    let place = decimal(s.index as nat) + "/"@ + decimal(s.list.len());
    (if s.mode == Mode::Input || s.input.len() > 0 {
        seq![bottom.writes(":"@ + s.input)]
    } else {
        Seq::empty()
    }) + (if s.mode == Mode::AdjustInput {
        seq![bottom.writes("Adjust:"@ + s.adjust_input)]
    } else {
        Seq::empty()
    }) + (if s.mode == Mode::Normal && place.len() + 8 < s.cols {
        seq![Pen { col: s.cols / 2 - 4 - place.len() as int / 2, ..bottom }.writes(place)]
    } else {
        Seq::empty()
    }) + (if s.mode == Mode::Normal {
        seq![Pen { col: s.cols - 3, fg: Some(Color::DarkGrey), ..bottom }.writes("?"@)]
    } else {
        Seq::empty()
    })
}

/// The cursor is left behind what is being typed, to be seen, and while the list has the
/// keyboard at its place in the list, hidden.
pub open spec fn cursor_left<A>(s: StateView<A>, pen: Pen) -> bool {
    &&& s.mode == Mode::Input ==> pen.cursor && pen.row == s.rows && pen.col == 1 + s.input.len()
    &&& s.mode == Mode::AdjustInput ==> pen.cursor && pen.row == s.rows && pen.col == 7
        + s.adjust_input.len()
    &&& s.mode == Mode::Normal ==> !pen.cursor && pen.row == s.cursor_row && pen.col
        == s.cursor_col
}

/// The bottom line is as [`bottom_writings`] says, and the cursor as [`cursor_left`] does.
pub proof fn law_bottom_drawn<A>(s: StateView<A>, pen: Pen)
    requires
        15 <= s.cols <= 0xffff && 7 <= s.rows <= 0xffff,
        s.mode != Mode::Help,
        0 <= s.cursor_col <= 0xffff && 0 <= s.cursor_row <= 0xffff,
        0 <= s.index,
        pen.plain(),
    ensures
        pen.written(s.input_line() + s.adjust_line() + s.status_line()) == bottom_writings(s),
        ({
            let after = pen.after(s.input_line() + s.adjust_line() + s.status_line());
            cursor_left(s, after) && after.plain() && after.clears == pen.clears
        }),
{
    reveal_strlit(":");
    reveal_strlit("Adjust:");
    reveal_strlit("?");
    reveal_strlit("/");
    let bottom = Pen { row: s.rows, ..fresh() };
    let place = decimal(s.index as nat) + "/"@ + decimal(s.list.len());
    let input = s.input_line();
    let adjust = s.adjust_line();
    let status = s.status_line();
    law_orders_in_turn(pen, input, adjust);
    law_orders_in_turn(pen, input + adjust, status);
    let one = pen.after(input);
    let two = one.after(adjust);
    let down = Op::<Seq<char>>::MoveTo(0, s.rows as u16);
    lemma_run_three(pen, down, Op::ShowCursor, Op::Print(":"@ + s.input));
    lemma_run_three(one, down, Op::ShowCursor, Op::Print("Adjust:"@ + s.adjust_input));
    assert(one.plain());
    assert(two.plain());
    if s.mode == Mode::Input || s.input.len() > 0 {
        assert(pen.written(input) =~= seq![bottom.writes(":"@ + s.input)]);
    } else {
        assert(pen.written(input) =~= Seq::empty());
    }
    if s.mode == Mode::AdjustInput {
        assert(one.written(adjust) =~= seq![bottom.writes("Adjust:"@ + s.adjust_input)]);
    } else {
        assert(one.written(adjust) =~= Seq::empty());
    }
    if s.mode == Mode::Normal {
        lemma_status(s, two);
    } else {
        assert(two.written(status) =~= Seq::empty());
    }
    assert(pen.written(input + adjust + status) =~= bottom_writings(s));
}

proof fn lemma_status<A>(s: StateView<A>, pen: Pen)
    requires
        15 <= s.cols <= 0xffff && 7 <= s.rows <= 0xffff,
        s.mode == Mode::Normal,
        0 <= s.cursor_col <= 0xffff && 0 <= s.cursor_row <= 0xffff,
        0 <= s.index,
        pen.plain(),
    ensures
        ({
            let bottom = Pen { row: s.rows, ..fresh() };
            let place = decimal(s.index as nat) + "/"@ + decimal(s.list.len());
            let mark = seq![
                Pen { col: s.cols - 3, fg: Some(Color::DarkGrey), ..bottom }.writes("?"@),
            ];
            pen.written(s.status_line()) == if place.len() + 8 < s.cols {
                seq![Pen { col: s.cols / 2 - 4 - place.len() as int / 2, ..bottom }.writes(place)]
                    + mark
            } else {
                mark
            }
        }),
        ({
            let after = pen.after(s.status_line());
            &&& !after.cursor && after.row == s.cursor_row && after.col == s.cursor_col
            &&& after.plain() && after.clears == pen.clears
        }),
{
    reveal_strlit("?");
    reveal_strlit("/");
    let bottom = Pen { row: s.rows, ..fresh() };
    let place = decimal(s.index as nat) + "/"@ + decimal(s.list.len());
    assert(s.status() == place);
    let mark = Pen { col: s.cols - 3, fg: Some(Color::DarkGrey), ..bottom }.writes("?"@);
    let len = place.len() as int;
    let to_place = Op::<Seq<char>>::MoveTo((s.cols / 2 - len / 2 - 4) as u16, s.rows as u16);
    let to_mark = Op::<Seq<char>>::MoveTo((s.cols - 3) as u16, s.rows as u16);
    let grey = Op::<Seq<char>>::Foreground(Color::DarkGrey);
    let to_list = Op::<Seq<char>>::MoveTo(s.cursor_col as u16, s.cursor_row as u16);
    let front: Orders = if len < s.cols - 8 {
        seq![to_place, Op::Print(place)]
    } else {
        Seq::empty()
    };
    let end: Orders = seq![to_mark, grey, Op::Print("?"@)];
    let rest: Orders = seq![Op::ResetColor, to_list, Op::HideCursor];
    assert(s.status_line() =~= front + end + rest);
    law_orders_in_turn(pen, front, end);
    law_orders_in_turn(pen, front + end, rest);
    let middle = pen.after(front);
    lemma_run_two(pen, to_place, Op::Print(place));
    lemma_run_three(middle, to_mark, grey, Op::Print("?"@));
    lemma_run_three(middle.after(end), Op::ResetColor, to_list, Op::HideCursor);
    assert(middle.plain());
    assert(middle.written(end) =~= seq![mark]);
    assert(middle.after(end).written(rest) =~= Seq::empty());
    if place.len() + 8 < s.cols {
        let first = Pen { col: s.cols / 2 - 4 - len / 2, ..bottom }.writes(place);
        assert(pen.written(front) =~= seq![first]);
        assert(pen.written(s.status_line()) =~= seq![first] + seq![mark]);
    } else {
        assert(pen.written(front) =~= Seq::empty());
        assert(pen.written(s.status_line()) =~= seq![mark]);
    }
}

proof fn lemma_screen_start(pen: Pen)
    ensures
        pen.after(seq![Op::<Seq<char>>::Clear, Op::MoveTo(0, 0)]) == (Pen {
            col: 0,
            row: 0,
            clears: pen.clears + 1,
            ..pen
        }),
        pen.written(seq![Op::<Seq<char>>::Clear, Op::MoveTo(0, 0)]) == Seq::<Writing>::empty(),
{
    lemma_run_two(pen, Op::Clear, Op::MoveTo(0, 0));
    assert(pen.written(seq![Op::<Seq<char>>::Clear, Op::MoveTo(0, 0)]) =~= Seq::empty());
}

/// While the list is shown on a screen that is large enough, the screen holds the preview of
/// the theme, the entries of the list from the offset on as far as there is room, and the
/// bottom line, all of it and nothing else.
pub proof fn law_screen_drawn<A>(s: StateView<A>, theme: Theme, shown: nat)
    requires
        15 <= s.cols <= 0xffff && 7 <= s.rows <= 0xffff,
        s.mode != Mode::Help,
        s.counted(),
        0 <= s.cursor_col <= 0xffff && s.cursor_row <= 0xffff,
        s.list.len() > 0,
        s.list.len() - s.offset <= 0 ==> shown == 0,
        0 <= s.list.len() - s.offset <= s.rows - 1 ==> shown == s.list.len() - s.offset,
        s.list.len() - s.offset > s.rows - 1 ==> shown == s.rows - 1,
    ensures
        fresh().written(s.screen(Some(&theme))) == Seq::new(
            (s.rows - 1) as nat,
            |row: int| preview_writing(s, theme, row),
        ) + Seq::new(shown, |row: int| entry_writing(s, row, entry_line(s, row)))
            + bottom_writings(s),
        cursor_left(s, fresh().after(s.screen(Some(&theme)))),
        cleared_first(s.screen(Some(&theme))),
{
    let start: Orders = seq![Op::Clear, Op::MoveTo(0, 0)];
    let preview = s.preview_area(theme);
    let list = s.list_area();
    let bottom = s.input_line() + s.adjust_line() + s.status_line();
    let ops = s.screen(Some(&theme));
    assert(ops =~= start + preview + list + bottom);
    lemma_screen_start(fresh());
    let pen = fresh().after(start);
    law_preview_drawn(s, theme, pen);
    law_list_drawn(s, pen);
    law_bottom_drawn(s, pen.after(list));
    law_orders_in_turn(fresh(), start, preview);
    law_orders_in_turn(fresh(), start + preview, list);
    law_orders_in_turn(fresh(), start + preview + list, bottom);
    let previews = Seq::new((s.rows - 1) as nat, |row: int| preview_writing(s, theme, row));
    let entries = Seq::new(shown, |row: int| entry_writing(s, row, entry_line(s, row)));
    assert(pen.written(preview) =~= previews);
    assert(pen.written(list) =~= entries);
    assert(fresh().written(ops) =~= previews + entries + bottom_writings(s));
}

/// Without entries there is nothing on the screen but the bottom line.
pub proof fn law_empty_list_drawn<A>(s: StateView<A>, theme: Option<&Theme>)
    requires
        15 <= s.cols <= 0xffff && 7 <= s.rows <= 0xffff,
        s.mode != Mode::Help,
        s.counted(),
        0 <= s.cursor_col <= 0xffff && s.cursor_row <= 0xffff,
        s.list.len() == 0,
    ensures
        fresh().written(s.screen(theme)) == bottom_writings(s),
        cursor_left(s, fresh().after(s.screen(theme))),
        cleared_first(s.screen(theme)),
{
    let start: Orders = seq![Op::Clear, Op::MoveTo(0, 0)];
    let bottom = s.input_line() + s.adjust_line() + s.status_line();
    let ops = s.screen(theme);
    assert(s.list_area() =~= Seq::empty());
    assert(ops =~= start + bottom);
    lemma_screen_start(fresh());
    let pen = fresh().after(start);
    law_bottom_drawn(s, pen);
    law_orders_in_turn(fresh(), start, bottom);
    assert(fresh().written(ops) =~= bottom_writings(s));
}

impl Pen {
    /// The writing of a text, if there is any text.
    pub open spec fn leaves(self, text: Seq<char>) -> Seq<Writing> {
        if text.len() > 0 {
            seq![self.writes(text)]
        } else {
            Seq::empty()
        }
    }
}

/// What a line of the help has to look like in its row: a heading in bold yellow, and for a key
/// the key in green, filled up to 14 columns, and behind it what it does.
pub open spec fn help_writings(line: HelpLine<Seq<char>>, row: int) -> Seq<Writing> {
    let pen = Pen { row, ..fresh() };
    match line {
        HelpLine::Heading(text) => Pen {
            col: 2,
            bold: true,
            fg: Some(Color::Yellow),
            ..pen
        }.leaves(text),
        HelpLine::Entry(key, what) => Pen { col: 4, fg: Some(Color::Green), ..pen }.leaves(
            padded(key, 14),
        ) + Pen { col: 4int + padded(key, 14).len(), ..pen }.leaves(what),
        HelpLine::Blank => Seq::empty(),
    }
}

/// The first `n` lines of the help, one below the other from the third row on.
pub open spec fn help_lines_written(n: int) -> Seq<Writing>
    decreases n,
{
    if n <= 0 {
        Seq::empty()
    } else {
        help_lines_written(n - 1) + help_writings(help_text()[n - 1], n + 1)
    }
}

/// The title of the help has to stand in the first row, in bold black on a cyan bar.
pub open spec fn title_writings(cols: int) -> Seq<Writing> {
    let left = if cols > 17 {
        (cols - 17) / 2
    } else {
        0
    };
    let right = if cols > 17 {
        cols - 17 - left
    } else {
        0
    };
    let bar = Pen { bold: true, fg: Some(Color::Black), bg: Some(Color::Cyan), ..fresh() };
    bar.leaves(blanks(left as nat)) + Pen { col: left, ..bar }.leaves(" RECOL —  HELP "@) + Pen {
        col: left + " RECOL —  HELP "@.len(),
        ..bar
    }.leaves(blanks(right as nat))
}

proof fn lemma_help_row(line: HelpLine<Seq<char>>, row: u16, pen: Pen)
    requires
        pen.plain(),
    ensures
        pen.written(help_row(line, row)) == help_writings(line, row as int),
        pen.after(help_row(line, row)).plain(),
        pen.after(help_row(line, row)).clears == pen.clears,
{
    let ops = help_row(line, row);
    match line {
        HelpLine::Heading(text) => {
            let bold = Op::<Seq<char>>::Attribute(Attribute::Bold);
            let yellow = Op::<Seq<char>>::Foreground(Color::Yellow);
            let plain = Op::<Seq<char>>::Attribute(Attribute::Reset);
            let a: Orders = seq![Op::MoveTo(2, row), bold, yellow];
            let b: Orders = seq![Op::Print(text), Op::ResetColor, plain];
            assert(ops =~= a + b);
            law_orders_in_turn(pen, a, b);
            lemma_run_three(pen, Op::MoveTo(2, row), bold, yellow);
            lemma_run_three(pen.after(a), Op::Print(text), Op::ResetColor, plain);
            assert(pen.written(ops) =~= help_writings(line, row as int));
        },
        HelpLine::Entry(key, what) => {
            let green = Op::<Seq<char>>::Foreground(Color::Green);
            let name = padded(key, 14);
            let a: Orders = seq![Op::MoveTo(4, row), green, Op::Print(name)];
            let b: Orders = seq![Op::ResetColor, Op::Print(what)];
            assert(ops =~= a + b);
            law_orders_in_turn(pen, a, b);
            lemma_run_three(pen, Op::MoveTo(4, row), green, Op::Print(name));
            lemma_run_two(pen.after(a), Op::ResetColor, Op::Print(what));
            assert(pen.written(ops) =~= help_writings(line, row as int));
        },
        HelpLine::Blank => {},
    }
}

proof fn lemma_help_rows(rows: spec_fn(int) -> Orders, n: int, pen: Pen)
    requires
        n <= 28,
        pen.plain(),
        forall|k: int| #[trigger] rows(k) == help_row(help_text()[k], (k + 2) as u16),
    ensures
        pen.written(rowwise(n, rows)) == help_lines_written(n),
        pen.after(rowwise(n, rows)).plain(),
        pen.after(rowwise(n, rows)).clears == pen.clears,
    decreases n,
{
    if n > 0 {
        lemma_help_rows(rows, n - 1, pen);
        let before = rowwise(n - 1, rows);
        law_orders_in_turn(pen, before, rows(n - 1));
        lemma_help_row(help_text()[n - 1], (n + 1) as u16, pen.after(before));
    }
}

proof fn lemma_help_header(cols: u16, pen: Pen)
    requires
        pen.plain(),
    ensures
        pen.written(help_header(cols)) == title_writings(cols as int),
        pen.after(help_header(cols)).plain(),
        pen.after(help_header(cols)).clears == pen.clears,
{
    let ops = help_header(cols);
    let bold = Op::<Seq<char>>::Attribute(Attribute::Bold);
    let black = Op::<Seq<char>>::Foreground(Color::Black);
    let cyan = Op::<Seq<char>>::Background(Color::Cyan);
    let plain = Op::<Seq<char>>::Attribute(Attribute::Reset);
    let a: Orders = seq![Op::MoveTo(0, 0), bold, black];
    let b: Orders = seq![cyan, ops[4], ops[5]];
    let c: Orders = seq![ops[6], Op::ResetColor, plain];
    assert(ops =~= a + b + c);
    law_orders_in_turn(pen, a, b);
    law_orders_in_turn(pen, a + b, c);
    lemma_run_three(pen, Op::MoveTo(0, 0), bold, black);
    lemma_run_three(pen.after(a), cyan, ops[4], ops[5]);
    lemma_run_three(pen.after(a).after(b), ops[6], Op::ResetColor, plain);
    assert(pen.written(ops) =~= title_writings(cols as int));
}

/// The help holds its title, its lines from the third row on as far as they fit above the
/// bottom line, and in the bottom line, in grey, how to leave it.
pub proof fn law_help_drawn<A>(s: StateView<A>, theme: Option<&Theme>, lines: int)
    requires
        15 <= s.cols <= 0xffff && 7 <= s.rows <= 0xffff,
        s.mode == Mode::Help,
        s.rows - 3 <= 28 ==> lines == s.rows - 3,
        s.rows - 3 > 28 ==> lines == 28,
    ensures
        fresh().written(s.screen(theme)) == title_writings(s.cols) + help_lines_written(lines)
            + seq![
            Pen { row: s.rows, fg: Some(Color::DarkGrey), ..fresh() }.writes(
                "Press any key to return · q to quit"@,
            ),
        ],
        cleared_first(s.screen(theme)),
{
    reveal_strlit("Press any key to return · q to quit");
    let start: Orders = seq![Op::Clear, Op::MoveTo(0, 0)];
    let cols = s.cols as u16;
    let bottom = s.rows as u16;
    let header = help_header(cols);
    let rows = help_rows(bottom);
    let how = Op::Print("Press any key to return · q to quit"@);
    let grey = Op::<Seq<char>>::Foreground(Color::DarkGrey);
    let a: Orders = seq![Op::MoveTo(0, bottom), grey];
    let b: Orders = seq![how, Op::ResetColor];
    assert(s.screen(theme) =~= start + header + rows + a + b);
    lemma_screen_start(fresh());
    let pen = fresh().after(start);
    law_orders_in_turn(fresh(), start, header);
    law_orders_in_turn(fresh(), start + header, rows);
    law_orders_in_turn(fresh(), start + header + rows, a);
    law_orders_in_turn(fresh(), start + header + rows + a, b);
    lemma_help_header(cols, pen);
    let one = pen.after(header);
    assert(help_text().len() == 28);
    lemma_help_rows(|k: int| help_row(help_text()[k], (k + 2) as u16), lines, one);
    let two = one.after(rows);
    lemma_run_two(two, Op::MoveTo(0, bottom), grey);
    lemma_run_two(two.after(a), how, Op::ResetColor);
    assert(fresh().written(s.screen(theme)) =~= title_writings(s.cols) + help_lines_written(lines)
        + seq![
        Pen { row: s.rows, fg: Some(Color::DarkGrey), ..fresh() }.writes(
            "Press any key to return · q to quit"@,
        ),
    ]);
}

/// The line of the help at `k` says what this key does.
pub open spec fn helps(k: int, key: Seq<char>, what: Seq<char>) -> bool {
    0 <= k < help_text().len() && help_text()[k] == HelpLine::Entry(key, what)
}

/// The help has five sections, each under its heading and with an empty line behind it.
pub proof fn law_help_sections()
    ensures
        help_text().len() == 28,
        help_text()[0] == HelpLine::Heading("NAVIGATION"@),
        help_text()[6] == HelpLine::Heading("INPUT & FILTER"@),
        help_text()[12] == HelpLine::Heading("LIST ACTIONS"@),
        help_text()[19] == HelpLine::Heading("GENERAL"@),
        help_text()[25] == HelpLine::Heading("CLI ARGS"@),
        help_text()[5] == HelpLine::<Seq<char>>::Blank,
        help_text()[11] == HelpLine::<Seq<char>>::Blank,
        help_text()[18] == HelpLine::<Seq<char>>::Blank,
        help_text()[24] == HelpLine::<Seq<char>>::Blank,
        help_text()[27] == HelpLine::<Seq<char>>::Blank,
{
}

/// The help says how to move.
pub proof fn law_help_navigation()
    ensures
        helps(1, "↑ / k / -"@, "Move selection up"@),
        helps(2, "↓ / j / +"@, "Move selection down"@),
        helps(3, "g / G"@, "Jump to first / last"@),
        helps(4, "Ctrl+ u / d"@, "Half page up / down"@),
{
}

/// The help says how to type and to filter.
pub proof fn law_help_input()
    ensures
        helps(7, "/ : i"@, "Enter input mode"@),
        helps(8, "a"@, "Enter adjust input mode"@),
        helps(9, "Esc / Enter"@, "Exit input mode"@),
        helps(10, "f"@, "Filter by first word (family)"@),
{
}

/// The help says what can be done to the list.
pub proof fn law_help_list()
    ensures
        helps(13, "s / r"@, "Shuffle / Reverse order"@),
        helps(14, "d / l"@, "Dark / Light only"@),
        helps(15, "h"@, "Recently applied (history)"@),
        helps(16, "F"@, "Favourites only"@),
        helps(17, "Space"@, "Reset filters (show all)"@),
{
}

/// The help says how to apply a theme, to mark it, to get help and to leave.
pub proof fn law_help_general()
    ensures
        helps(20, "Enter"@, "Apply theme"@),
        helps(21, "m"@, "Toggle favourite (★)"@),
        helps(22, "?"@, "Open this help"@),
        helps(23, "q / Ctrl+c"@, "Quit"@),
{
}

/// The help names the argument that has the picker left once a theme is applied.
pub proof fn law_help_args()
    ensures
        helps(26, "--quit-on-select"@, ""@),
{
}

/// A preview is shown whenever the screen is large enough, the help is not open and the list is
/// not empty, and the theme to preview is the selected one.
pub proof fn law_previewed<A>(s: StateView<A>)
    ensures
        s.shows_preview() <==> s.cols >= 15 && s.rows >= 7 && s.mode != Mode::Help && s.list.len()
            > 0,
        s.has_selection() <==> 0 <= s.index < s.list.len(),
        s.selected() == s.list[s.index],
{
}

} // verus!
