//! What the terminal is told to show.
use vstd::prelude::*;
use vstd::utf8::encode_utf8;

use crate::favourites::lists;
use crate::preview::gen_preview;
use crate::preview::preview_text;
use crate::state::Mode;
use crate::state::State;
use crate::state::StateView;
use crate::state::floor0;
use crate::state::min;
use crate::text::blanks;
use crate::text::decimal;
use crate::text::fit;
use crate::text::fitted;
use crate::text::law_fitted_width;
use crate::text::pad;
use crate::text::padded;
use crate::text::push_blanks;
use crate::text::push_decimal;
use crate::text::texts;
use crate::theme::Rgb;
use crate::theme::Theme;
use crate::theme::ThemeView;

verus! {

#[derive(Debug, Clone, Copy, PartialEq, Eq, Structural)]
pub enum Color {
    Black,
    Red,
    Green,
    Yellow,
    Cyan,
    DarkGrey,
    Exact(Rgb),
}

#[derive(Debug, Clone, Copy, PartialEq, Eq, Structural)]
pub enum Attribute {
    Bold,
    Reset,
    Reverse,
    NoReverse,
}

/// One order to the terminal. `T` is a text.
#[derive(Debug)]
pub enum Op<T> {
    /// Clear the whole screen.
    Clear,
    /// Move the cursor to this column and row.
    MoveTo(u16, u16),
    /// Move the cursor down by so many rows.
    MoveDown(u16),
    MoveToColumn(u16),
    Foreground(Color),
    Background(Color),
    ResetColor,
    Attribute(Attribute),
    Print(T),
    ShowCursor,
    HideCursor,
}

impl View for Op<String> {
    type V = Op<Seq<char>>;

    open spec fn view(&self) -> Op<Seq<char>> {
        match *self {
            Op::Clear => Op::Clear,
            Op::MoveTo(col, row) => Op::MoveTo(col, row),
            Op::MoveDown(n) => Op::MoveDown(n),
            Op::MoveToColumn(col) => Op::MoveToColumn(col),
            Op::Foreground(color) => Op::Foreground(color),
            Op::Background(color) => Op::Background(color),
            Op::ResetColor => Op::ResetColor,
            Op::Attribute(attribute) => Op::Attribute(attribute),
            Op::Print(text) => Op::Print(text@),
            Op::ShowCursor => Op::ShowCursor,
            Op::HideCursor => Op::HideCursor,
        }
    }
}

/// Orders to the terminal, with their texts.
pub type Orders = Seq<Op<Seq<char>>>;

/// What these orders say.
pub open spec fn orders(ops: Seq<Op<String>>) -> Orders {
    ops.map_values(|op: Op<String>| op@)
}

/// The orders for the first `n` rows, one row after the other.
pub open spec fn rowwise(n: int, row: spec_fn(int) -> Orders) -> Orders
    decreases n,
{
    if n <= 0 {
        Seq::empty()
    } else {
        rowwise(n - 1, row) + row(n - 1)
    }
}

/// Fewest columns that the picker can be shown in.
pub const MIN_COLS: u16 = 15;

/// Fewest rows that the picker can be shown in.
pub const MIN_ROWS: u16 = 7;

fn put(ops: &mut Vec<Op<String>>, op: Op<String>)
    ensures
        orders(final(ops)@) == orders(old(ops)@).push(op@),
{
    ops.push(op);
    assert(orders(ops@) =~= orders(old(ops)@).push(op@));
}

/// The complaint about a screen of this size.
pub open spec fn small_message(cols: nat, rows: nat) -> Seq<char> {
    "Window too small ("@ + decimal(cols) + "x"@ + decimal(rows) + "), need "@ + decimal(
        MIN_COLS as nat,
    ) + "x"@ + decimal(MIN_ROWS as nat)
}

/// The complaint, in the middle of the screen.
pub open spec fn small_screen(cols: u16, rows: u16) -> Orders {
    let message = small_message(cols as nat, rows as nat);
    seq![
        Op::MoveTo((floor0(cols - message.len()) / 2) as u16, rows / 2),
        Op::Foreground(Color::Red),
        Op::Print(message),
        Op::ResetColor,
    ]
}

fn draw_small(ops: &mut Vec<Op<String>>, cols: u16, rows: u16)
    ensures
        orders(final(ops)@) == orders(old(ops)@) + small_screen(cols, rows),
{
    let mut message = "Window too small (".to_string();
    push_decimal(&mut message, cols as usize);
    message.append("x");
    push_decimal(&mut message, rows as usize);
    message.append("), need ");
    push_decimal(&mut message, MIN_COLS as usize);
    message.append("x");
    push_decimal(&mut message, MIN_ROWS as usize);
    let len: usize = message.as_str().unicode_len();
    let room: u16 = if len < cols as usize { cols - len as u16 } else { 0 };
    put(ops, Op::MoveTo(room / 2, rows / 2));
    put(ops, Op::Foreground(Color::Red));
    put(ops, Op::Print(message));
    put(ops, Op::ResetColor);
    assert(orders(ops@) =~= orders(old(ops)@) + small_screen(cols, rows));
}

/// A line of the help. `T` is a text.
#[derive(Debug)]
pub enum HelpLine<T> {
    Heading(T),
    Entry(T, T),
    Blank,
}

impl View for HelpLine<&'static str> {
    type V = HelpLine<Seq<char>>;

    open spec fn view(&self) -> HelpLine<Seq<char>> {
        match *self {
            HelpLine::Heading(text) => HelpLine::Heading(text@),
            HelpLine::Entry(key, what) => HelpLine::Entry(key@, what@),
            HelpLine::Blank => HelpLine::Blank,
        }
    }
}

pub open spec fn help_views(lines: Seq<HelpLine<&'static str>>) -> Seq<HelpLine<Seq<char>>> {
    lines.map_values(|l: HelpLine<&'static str>| l@)
}

/// The help, line by line.
pub open spec fn help_text() -> Seq<HelpLine<Seq<char>>> {
    seq![
        HelpLine::Heading("NAVIGATION"@),
        HelpLine::Entry("↑ / k / -"@, "Move selection up"@),
        HelpLine::Entry("↓ / j / +"@, "Move selection down"@),
        HelpLine::Entry("g / G"@, "Jump to first / last"@),
        HelpLine::Entry("Ctrl+ u / d"@, "Half page up / down"@),
        HelpLine::Blank,
        HelpLine::Heading("INPUT & FILTER"@),
        HelpLine::Entry("/ : i"@, "Enter input mode"@),
        HelpLine::Entry("a"@, "Enter adjust input mode"@),
        HelpLine::Entry("Esc / Enter"@, "Exit input mode"@),
        HelpLine::Entry("f"@, "Filter by first word (family)"@),
        HelpLine::Blank,
        HelpLine::Heading("LIST ACTIONS"@),
        HelpLine::Entry("s / r"@, "Shuffle / Reverse order"@),
        HelpLine::Entry("d / l"@, "Dark / Light only"@),
        HelpLine::Entry("h"@, "Recently applied (history)"@),
        HelpLine::Entry("F"@, "Favourites only"@),
        HelpLine::Entry("Space"@, "Reset filters (show all)"@),
        HelpLine::Blank,
        HelpLine::Heading("GENERAL"@),
        HelpLine::Entry("Enter"@, "Apply theme"@),
        HelpLine::Entry("m"@, "Toggle favourite (★)"@),
        HelpLine::Entry("?"@, "Open this help"@),
        HelpLine::Entry("q / Ctrl+c"@, "Quit"@),
        HelpLine::Blank,
        HelpLine::Heading("CLI ARGS"@),
        HelpLine::Entry("--quit-on-select"@, ""@),
        HelpLine::Blank,
    ]
}

fn add_help(lines: &mut Vec<HelpLine<&'static str>>, line: HelpLine<&'static str>)
    ensures
        help_views(final(lines)@) == help_views(old(lines)@).push(line@),
{
    lines.push(line);
    assert(help_views(lines@) =~= help_views(old(lines)@).push(line@));
}

/// The help, line by line.
fn help_lines() -> (lines: Vec<HelpLine<&'static str>>)
    ensures
        help_views(lines@) == help_text(),
{
    let mut lines: Vec<HelpLine<&'static str>> = Vec::new();
    assert(help_views(lines@) =~= Seq::empty());
    add_help(&mut lines, HelpLine::Heading("NAVIGATION"));
    add_help(&mut lines, HelpLine::Entry("↑ / k / -", "Move selection up"));
    add_help(&mut lines, HelpLine::Entry("↓ / j / +", "Move selection down"));
    add_help(&mut lines, HelpLine::Entry("g / G", "Jump to first / last"));
    add_help(&mut lines, HelpLine::Entry("Ctrl+ u / d", "Half page up / down"));
    add_help(&mut lines, HelpLine::Blank);
    add_help(&mut lines, HelpLine::Heading("INPUT & FILTER"));
    add_help(&mut lines, HelpLine::Entry("/ : i", "Enter input mode"));
    add_help(&mut lines, HelpLine::Entry("a", "Enter adjust input mode"));
    add_help(&mut lines, HelpLine::Entry("Esc / Enter", "Exit input mode"));
    add_help(&mut lines, HelpLine::Entry("f", "Filter by first word (family)"));
    add_help(&mut lines, HelpLine::Blank);
    add_help(&mut lines, HelpLine::Heading("LIST ACTIONS"));
    add_help(&mut lines, HelpLine::Entry("s / r", "Shuffle / Reverse order"));
    add_help(&mut lines, HelpLine::Entry("d / l", "Dark / Light only"));
    add_help(&mut lines, HelpLine::Entry("h", "Recently applied (history)"));
    add_help(&mut lines, HelpLine::Entry("F", "Favourites only"));
    add_help(&mut lines, HelpLine::Entry("Space", "Reset filters (show all)"));
    add_help(&mut lines, HelpLine::Blank);
    add_help(&mut lines, HelpLine::Heading("GENERAL"));
    add_help(&mut lines, HelpLine::Entry("Enter", "Apply theme"));
    add_help(&mut lines, HelpLine::Entry("m", "Toggle favourite (★)"));
    add_help(&mut lines, HelpLine::Entry("?", "Open this help"));
    add_help(&mut lines, HelpLine::Entry("q / Ctrl+c", "Quit"));
    add_help(&mut lines, HelpLine::Blank);
    add_help(&mut lines, HelpLine::Heading("CLI ARGS"));
    add_help(&mut lines, HelpLine::Entry("--quit-on-select", ""));
    add_help(&mut lines, HelpLine::Blank);
    assert(help_views(lines@) =~= help_text());
    lines
}

/// The title of the help.
pub open spec fn help_title() -> Seq<char> {
    " RECOL —  HELP "@
}

/// The bytes that the title takes in UTF-8, by which it is centred.
pub const HELP_TITLE_BYTES: usize = 17;

/// The title of the help, with blanks on both sides. It is centred by its bytes, which are
/// two more than its characters: on a screen that has room for so many, the bar ends two
/// columns before the right edge.
pub open spec fn help_header(cols: u16) -> Orders {
    let left = floor0(cols - HELP_TITLE_BYTES) / 2;
    let right = floor0(cols - (left + HELP_TITLE_BYTES));
    seq![
        Op::MoveTo(0, 0),
        Op::Attribute(Attribute::Bold),
        Op::Foreground(Color::Black),
        Op::Background(Color::Cyan),
        Op::Print(blanks(left as nat)),
        Op::Print(help_title()),
        Op::Print(blanks(right as nat)),
        Op::ResetColor,
        Op::Attribute(Attribute::Reset),
    ]
}

/// One line of the help in this row.
pub open spec fn help_row(line: HelpLine<Seq<char>>, row: u16) -> Orders {
    match line {
        HelpLine::Heading(text) => seq![
            Op::MoveTo(2, row),
            Op::Attribute(Attribute::Bold),
            Op::Foreground(Color::Yellow),
            Op::Print(text),
            Op::ResetColor,
            Op::Attribute(Attribute::Reset),
        ],
        HelpLine::Entry(key, what) => seq![
            Op::MoveTo(4, row),
            Op::Foreground(Color::Green),
            Op::Print(padded(key, 14)),
            Op::ResetColor,
            Op::Print(what),
        ],
        HelpLine::Blank => Seq::empty(),
    }
}

/// The lines of the help from the third row on, as many as fit above the bottom line.
pub open spec fn help_rows(rows: u16) -> Orders {
    rowwise(
        min(help_text().len() as int, floor0(rows - 3)),
        |k: int| help_row(help_text()[k], (k + 2) as u16),
    )
}

/// The bottom line of the help.
pub open spec fn help_footer(rows: u16) -> Orders {
    seq![
        Op::MoveTo(0, rows),
        Op::Foreground(Color::DarkGrey),
        Op::Print("Press any key to return · q to quit"@),
        Op::ResetColor,
    ]
}

/// The help.
pub open spec fn help_screen(cols: u16, rows: u16) -> Orders {
    help_header(cols) + help_rows(rows) + help_footer(rows)
}

fn some_blanks(n: usize) -> (out: String)
    ensures
        out@ == blanks(n as nat),
{
    let mut out = String::new();
    push_blanks(&mut out, n);
    assert(out@ =~= blanks(n as nat));
    out
}

fn draw_help_header(ops: &mut Vec<Op<String>>, cols: u16)
    ensures
        orders(final(ops)@) == orders(old(ops)@) + help_header(cols),
{
    let width: usize = cols as usize;
    let left: usize = width.saturating_sub(HELP_TITLE_BYTES) / 2;
    let right: usize = width.saturating_sub(left + HELP_TITLE_BYTES);
    put(ops, Op::MoveTo(0, 0));
    put(ops, Op::Attribute(Attribute::Bold));
    put(ops, Op::Foreground(Color::Black));
    put(ops, Op::Background(Color::Cyan));
    put(ops, Op::Print(some_blanks(left)));
    put(ops, Op::Print(" RECOL —  HELP ".to_string()));
    put(ops, Op::Print(some_blanks(right)));
    put(ops, Op::ResetColor);
    put(ops, Op::Attribute(Attribute::Reset));
    assert(orders(ops@) =~= orders(old(ops)@) + help_header(cols));
}

fn draw_help_row(ops: &mut Vec<Op<String>>, line: &HelpLine<&'static str>, row: u16)
    ensures
        orders(final(ops)@) == orders(old(ops)@) + help_row(line@, row),
{
    match line {
        HelpLine::Heading(text) => {
            put(ops, Op::MoveTo(2, row));
            put(ops, Op::Attribute(Attribute::Bold));
            put(ops, Op::Foreground(Color::Yellow));
            put(ops, Op::Print((*text).to_string()));
            put(ops, Op::ResetColor);
            put(ops, Op::Attribute(Attribute::Reset));
        },
        HelpLine::Entry(key, what) => {
            put(ops, Op::MoveTo(4, row));
            put(ops, Op::Foreground(Color::Green));
            put(ops, Op::Print(pad(key, 14)));
            put(ops, Op::ResetColor);
            put(ops, Op::Print((*what).to_string()));
        },
        HelpLine::Blank => {},
    }
    assert(orders(ops@) =~= orders(old(ops)@) + help_row(line@, row));
}

fn draw_help(ops: &mut Vec<Op<String>>, cols: u16, rows: u16)
    ensures
        orders(final(ops)@) == orders(old(ops)@) + help_screen(cols, rows),
{
    draw_help_header(ops, cols);
    let lines = help_lines();
    let ghost before = orders(ops@);
    let ghost row_of = |k: int| help_row(help_text()[k], (k + 2) as u16);
    let max_row: u16 = rows.saturating_sub(1);
    let mut k: usize = 0;
    let mut row: u16 = 2;
    assert(before + rowwise(0, row_of) =~= before);
    while k < lines.len() && row < max_row
        invariant
            help_views(lines@) == help_text(),
            k <= lines@.len(),
            max_row == floor0(rows - 1),
            row == k + 2,
            k == 0 || row <= max_row,
            row_of == (|k: int| help_row(help_text()[k], (k + 2) as u16)),
            orders(ops@) == before + rowwise(k as int, row_of),
        decreases lines@.len() - k,
    {
        assert(help_text()[k as int] == lines@[k as int]@);
        draw_help_row(ops, &lines[k], row);
        assert(before + rowwise(k as int, row_of) + row_of(k as int) =~= before + rowwise(
            k + 1,
            row_of,
        ));
        k = k + 1;
        row = row + 1;
    }
    assert(lines@.len() == help_text().len());
    put(ops, Op::MoveTo(0, rows));
    put(ops, Op::Foreground(Color::DarkGrey));
    put(ops, Op::Print("Press any key to return · q to quit".to_string()));
    put(ops, Op::ResetColor);
    assert(orders(ops@) =~= orders(old(ops)@) + help_screen(cols, rows));
}

/// The title takes 17 bytes in UTF-8.
pub proof fn law_help_title_bytes()
    ensures
        encode_utf8(help_title()).len() == HELP_TITLE_BYTES,
{
    reveal_strlit(" RECOL —  HELP ");
    reveal_with_fuel(encode_utf8, 16);
}

impl<A> StateView<A> {
    /// The screen is too small to show anything of use.
    pub open spec fn too_small(self) -> bool {
        self.cols < MIN_COLS || self.rows < MIN_ROWS
    }

    /// The preview of a theme is on the screen.
    pub open spec fn shows_preview(self) -> bool {
        !self.too_small() && self.mode != Mode::Help && self.list.len() > 0
    }

    /// Columns that the list takes up: all, unless there is room for the preview too.
    pub open spec fn list_cols(self) -> int {
        if self.cols >= 2 * MIN_COLS + 4 {
            self.cols / 2 - 4
        } else {
            self.cols
        }
    }

    /// Columns that the preview takes up.
    pub open spec fn preview_cols(self) -> nat {
        (floor0(self.cols - self.list_cols()) + 1) as nat
    }

    /// The preview in one row of the screen: the line for this row, or blanks if there is
    /// none.
    pub open spec fn preview_row(self, theme: Theme, row: int) -> Orders {
        let lines = preview_text(theme.name@, theme.colors, self.preview_cols());
        let line = if row < lines.len() {
            lines[row]
        } else {
            Seq::empty()
        };
        let start = seq![
            Op::MoveTo(floor0(self.list_cols() - 1) as u16, row as u16),
            Op::Background(Color::Exact(theme.background)),
            Op::Print(line),
        ];
        if line.len() == 0 {
            start.push(Op::Print(blanks(self.preview_cols())))
        } else {
            start
        }
    }

    /// The preview, in all rows but the bottom line.
    pub open spec fn preview_area(self, theme: Theme) -> Orders {
        rowwise(self.visible_rows(), |row: int| self.preview_row(theme, row)) + seq![
            Op::MoveTo(0, 0),
            Op::ResetColor,
        ]
    }

    /// What the list says of a theme, before it is fitted to the column: a star for a
    /// favourite, a sun or a moon, and the name.
    pub open spec fn entry_text(self, t: ThemeView) -> Seq<char> {
        (if self.favourites.contains(t.name) {
            "★"@
        } else {
            " "@
        }) + (if t.is_light {
            "☀"@
        } else {
            "⏾"@
        }) + "  "@ + t.name
    }

    /// One row of the list. The current theme is in another colour, the selected entry in
    /// reverse.
    pub open spec fn entry_row(self, row: int) -> Orders {
        let t = self.list[self.offset + row];
        let text = fitted(self.entry_text(t), (self.list_cols() - 2) as nat);
        let color: Orders = if self.current_theme == Some(t.name) {
            seq![Op::Foreground(Color::Cyan)]
        } else {
            Seq::empty()
        };
        let entry: Orders = if self.offset + row == self.index {
            seq![
                Op::Attribute(Attribute::Reverse),
                Op::Print(text),
                Op::Attribute(Attribute::NoReverse),
            ]
        } else {
            seq![Op::Print(text)]
        };
        color + entry + seq![Op::MoveDown(1), Op::MoveToColumn(0), Op::ResetColor]
    }

    /// The entries of the list that are on the screen.
    pub open spec fn shown_entries(self) -> int {
        min(floor0(self.list.len() - self.offset), self.visible_rows())
    }

    /// The list.
    pub open spec fn list_area(self) -> Orders {
        rowwise(self.shown_entries(), |row: int| self.entry_row(row))
    }

    /// The query, while it is typed or as long as there is one.
    pub open spec fn input_line(self) -> Orders {
        if self.mode == Mode::Input || self.input.len() > 0 {
            seq![
                Op::MoveTo(0, self.rows as u16),
                Op::ShowCursor,
                Op::Print(":"@ + self.input),
            ]
        } else {
            Seq::empty()
        }
    }

    /// The adjustments, while they are typed.
    pub open spec fn adjust_line(self) -> Orders {
        if self.mode == Mode::AdjustInput {
            seq![
                Op::MoveTo(0, self.rows as u16),
                Op::ShowCursor,
                Op::Print("Adjust:"@ + self.adjust_input),
            ]
        } else {
            Seq::empty()
        }
    }

    /// Where the selection stands in the list, as a text.
    pub open spec fn status(self) -> Seq<char> {
        decimal(self.index as nat) + "/"@ + decimal(self.list.len())
    }

    /// The bottom line while the list has the keyboard: where the selection stands, if
    /// there is room, and how to get help.
    pub open spec fn status_line(self) -> Orders {
        if self.mode == Mode::Normal {
            let len = self.status().len() as int;
            let status: Orders = if len < self.cols - 8 {
                seq![
                    Op::MoveTo((self.cols / 2 - len / 2 - 4) as u16, self.rows as u16),
                    Op::Print(self.status()),
                ]
            } else {
                Seq::empty()
            };
            status + seq![
                Op::MoveTo(floor0(self.cols - 3) as u16, self.rows as u16),
                Op::Foreground(Color::DarkGrey),
                Op::Print("?"@),
                Op::ResetColor,
                Op::MoveTo(self.cursor_col as u16, self.cursor_row as u16),
                Op::HideCursor,
            ]
        } else {
            Seq::empty()
        }
    }

    /// The list, the preview of the selected theme beside it, and the bottom line.
    pub open spec fn list_screen(self, theme: Option<&Theme>) -> Orders {
        let preview: Orders = match theme {
            Some(theme) => if self.list.len() > 0 {
                self.preview_area(*theme)
            } else {
                Seq::empty()
            },
            None => Seq::empty(),
        };
        preview + self.list_area() + self.input_line() + self.adjust_line() + self.status_line()
    }

    /// The whole screen, with the preview of this theme.
    pub open spec fn screen(self, theme: Option<&Theme>) -> Orders {
        seq![Op::Clear, Op::MoveTo(0, 0)] + (if self.too_small() {
            small_screen(self.cols as u16, self.rows as u16)
        } else if self.mode == Mode::Help {
            help_screen(self.cols as u16, self.rows as u16)
        } else {
            self.list_screen(theme)
        })
    }
}

impl<A> State<A> {
    /// Whether the screen is to show the preview of the selected theme.
    pub fn previews(&self) -> (shown: bool)
        ensures
            shown == self@.shows_preview(),
    {
        if self.size.0 < MIN_COLS || self.size.1 < MIN_ROWS || self.list.len() == 0 {
            return false;
        }
        match self.mode {
            Mode::Help => false,
            _ => true,
        }
    }

    /// The rank of the theme whose preview the screen is to show, if there is one.
    pub fn previewed(&self) -> (rank: Option<usize>)
        ensures
            rank is Some <==> self@.shows_preview() && self@.has_selection(),
            rank matches Some(r) ==> r == self@.selected().rank,
    {
        if self.previews() && self.list_index < self.list.len() {
            Some(self.list[self.list_index].rank)
        } else {
            None
        }
    }

    fn list_width(&self) -> (width: u16)
        requires
            !self@.too_small(),
        ensures
            width == self@.list_cols(),
            width >= 13,
    {
        if self.size.0 >= MIN_COLS * 2 + 4 {
            self.size.0 / 2 - 4
        } else {
            self.size.0
        }
    }

    fn draw_preview(&self, ops: &mut Vec<Op<String>>, theme: &Theme)
        requires
            !self@.too_small(),
        ensures
            orders(final(ops)@) == orders(old(ops)@) + self@.preview_area(*theme),
    {
        let list_width: u16 = self.list_width();
        let width: usize = (self.size.0 - list_width) as usize + 1;
        let lines = gen_preview(theme, width);
        let ghost before = orders(ops@);
        let ghost row_of = |row: int| self@.preview_row(*theme, row);
        let visible_rows: u16 = self.size.1 - 1;
        let mut row: u16 = 0;
        assert(before + rowwise(0, row_of) =~= before);
        while row < visible_rows
            invariant
                !self@.too_small(),
                list_width == self@.list_cols(),
                list_width >= 13,
                width == self@.preview_cols(),
                texts(lines@) == preview_text(theme.name@, theme.colors, width as nat),
                row <= visible_rows == self@.visible_rows(),
                row_of == (|row: int| self@.preview_row(*theme, row)),
                orders(ops@) == before + rowwise(row as int, row_of),
            decreases visible_rows - row,
        {
            let ghost so_far = orders(ops@);
            assert(texts(lines@).len() == lines@.len());
            let line = if (row as usize) < lines.len() {
                assert(texts(lines@)[row as int] == lines@[row as int]@);
                lines[row as usize].clone()
            } else {
                String::new()
            };
            let empty = line.as_str().is_empty();
            put(ops, Op::MoveTo(list_width - 1, row));
            put(ops, Op::Background(Color::Exact(theme.background)));
            put(ops, Op::Print(line));
            if empty {
                put(ops, Op::Print(some_blanks(width)));
            }
            assert(orders(ops@) =~= so_far + self@.preview_row(*theme, row as int));
            assert(orders(ops@) =~= before + rowwise(row + 1, row_of));
            row = row + 1;
        }
        put(ops, Op::MoveTo(0, 0));
        put(ops, Op::ResetColor);
        assert(orders(ops@) =~= before + self@.preview_area(*theme));
    }

    fn is_current(&self, name: &String) -> (current: bool)
        ensures
            current == (self@.current_theme == Some(name@)),
    {
        match &self.current_theme {
            Some(current) => *current == *name,
            None => false,
        }
    }

    fn draw_entry(&self, ops: &mut Vec<Op<String>>, at: usize, width: u16)
        requires
            !self@.too_small(),
            width == self@.list_cols(),
            width >= 13,
            self.list_offset <= at < self.list@.len(),
        ensures
            orders(final(ops)@) == orders(old(ops)@) + self@.entry_row(at - self.list_offset),
    {
        let entry = &self.list[at];
        assert(self@.list[at as int] == entry@);
        let mut text = if lists(&self.favourites, entry.name.as_str()) {
            "★".to_string()
        } else {
            " ".to_string()
        };
        if entry.is_light {
            text.append("☀");
        } else {
            text.append("⏾");
        }
        text.append("  ");
        text.append(entry.name.as_str());
        let text = fit(&text, width as usize - 2);
        if self.is_current(&entry.name) {
            put(ops, Op::Foreground(Color::Cyan));
        }
        if at == self.list_index {
            put(ops, Op::Attribute(Attribute::Reverse));
            put(ops, Op::Print(text));
            put(ops, Op::Attribute(Attribute::NoReverse));
        } else {
            put(ops, Op::Print(text));
        }
        put(ops, Op::MoveDown(1));
        put(ops, Op::MoveToColumn(0));
        put(ops, Op::ResetColor);
        assert(orders(ops@) =~= orders(old(ops)@) + self@.entry_row(at - self.list_offset));
    }

    fn draw_list(&self, ops: &mut Vec<Op<String>>)
        requires
            !self@.too_small(),
        ensures
            orders(final(ops)@) == orders(old(ops)@) + self@.list_area(),
    {
        let width: u16 = self.list_width();
        let visible_rows: usize = self.size.1 as usize - 1;
        let ghost before = orders(ops@);
        let ghost row_of = |row: int| self@.entry_row(row);
        let mut row: usize = 0;
        assert(before + rowwise(0, row_of) =~= before);
        while row < visible_rows && row < self.list.len().saturating_sub(self.list_offset)
            invariant
                !self@.too_small(),
                width == self@.list_cols(),
                width >= 13,
                visible_rows == self@.visible_rows(),
                row <= self@.shown_entries(),
                row_of == (|row: int| self@.entry_row(row)),
                orders(ops@) == before + rowwise(row as int, row_of),
            decreases visible_rows - row,
        {
            self.draw_entry(ops, self.list_offset + row, width);
            assert(before + rowwise(row as int, row_of) + row_of(row as int) =~= before + rowwise(
                row + 1,
                row_of,
            ));
            row = row + 1;
        }
    }

    fn draw_bottom(&self, ops: &mut Vec<Op<String>>)
        requires
            !self@.too_small(),
        ensures
            orders(final(ops)@) == orders(old(ops)@) + self@.input_line() + self@.adjust_line()
                + self@.status_line(),
    {
        let (cols, rows): (u16, u16) = self.size;
        let ghost start = orders(ops@);
        let has_input = match self.mode {
            Mode::Input => true,
            _ => !self.input_buf.as_str().is_empty(),
        };
        if has_input {
            put(ops, Op::MoveTo(0, rows));
            put(ops, Op::ShowCursor);
            put(ops, Op::Print(":".to_string().concat(self.input_buf.as_str())));
        }
        assert(orders(ops@) =~= start + self@.input_line());
        if let Mode::AdjustInput = self.mode {
            put(ops, Op::MoveTo(0, rows));
            put(ops, Op::ShowCursor);
            put(ops, Op::Print("Adjust:".to_string().concat(self.adjust_input_buf.as_str())));
        }
        let ghost middle = orders(ops@);
        assert(middle =~= start + self@.input_line() + self@.adjust_line());
        if let Mode::Normal = self.mode {
            let mut status = String::new();
            push_decimal(&mut status, self.list_index);
            status.append("/");
            push_decimal(&mut status, self.list.len());
            assert(status@ =~= self@.status());
            let len: usize = status.as_str().unicode_len();
            if len < cols as usize - 8 {
                put(ops, Op::MoveTo(cols / 2 - len as u16 / 2 - 4, rows));
                put(ops, Op::Print(status));
            }
            put(ops, Op::MoveTo(cols - 3, rows));
            put(ops, Op::Foreground(Color::DarkGrey));
            put(ops, Op::Print("?".to_string()));
            put(ops, Op::ResetColor);
            put(ops, Op::MoveTo(self.cursor.0, self.cursor.1));
            put(ops, Op::HideCursor);
        }
        assert(orders(ops@) =~= middle + self@.status_line());
    }

    /// The orders that put the picker on the screen. `theme` is the theme to preview, with
    /// its adjustments made.
    pub fn draw_screen(&self, theme: Option<&Theme>) -> (ops: Vec<Op<String>>)
        requires
            self@.shows_preview() ==> self@.has_selection() && theme is Some,
        ensures
            orders(ops@) == self@.screen(theme),
    {
        let mut ops: Vec<Op<String>> = Vec::new();
        assert(orders(ops@) =~= Seq::empty());
        put(&mut ops, Op::Clear);
        put(&mut ops, Op::MoveTo(0, 0));
        assert(orders(ops@) =~= seq![Op::Clear, Op::MoveTo(0, 0)]);
        if self.size.0 < MIN_COLS || self.size.1 < MIN_ROWS {
            draw_small(&mut ops, self.size.0, self.size.1);
            return ops;
        }
        if let Mode::Help = self.mode {
            draw_help(&mut ops, self.size.0, self.size.1);
            return ops;
        }
        let ghost start = orders(ops@);
        if let Some(theme) = theme {
            if self.list.len() > 0 {
                self.draw_preview(&mut ops, theme);
            }
        }
        self.draw_list(&mut ops);
        self.draw_bottom(&mut ops);
        assert(orders(ops@) =~= start + self@.list_screen(theme));
        ops
    }
}

/// The preview begins right behind the list and ends with the screen.
pub proof fn law_preview_beside_list<A>(s: StateView<A>)
    ensures
        s.list_cols() - 1 + s.preview_cols() == s.cols,
{
}

/// Some order among these turns reverse video on.
pub open spec fn highlights(ops: Orders) -> bool {
    exists|i: int|
        0 <= i < ops.len() && #[trigger] ops[i] == Op::<Seq<char>>::Attribute(Attribute::Reverse)
}

/// A selection in view is among the rows of the list that are drawn, and it is the one
/// row that is highlighted.
pub proof fn law_selection_drawn<A>(s: StateView<A>, row: int)
    requires
        s.positioned(),
        s.in_view(),
        s.list.len() > 0,
    ensures
        0 <= s.cursor_row < s.shown_entries(),
        highlights(s.entry_row(row)) <==> row == s.cursor_row,
{
    let ops = s.entry_row(row);
    let current = s.current_theme == Some(s.list[s.offset + row].name);
    if row == s.cursor_row {
        assert(ops[if current { 1 } else { 0 }] == Op::<Seq<char>>::Attribute(Attribute::Reverse));
    }
}

/// Where a preview is on the screen, there is a selected theme to preview.
pub proof fn law_preview_has_theme<A>(s: StateView<A>)
    requires
        s.positioned(),
        s.shows_preview(),
    ensures
        s.has_selection(),
{
}

/// Each row of the list prints exactly the columns that the list has for text.
pub proof fn law_entry_width<A>(s: StateView<A>, t: ThemeView)
    requires
        !s.too_small(),
    ensures
        fitted(s.entry_text(t), (s.list_cols() - 2) as nat).len() == s.list_cols() - 2,
{
    law_fitted_width(s.entry_text(t), (s.list_cols() - 2) as nat);
}

} // verus!
