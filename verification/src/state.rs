//! The picker's state and the moves of its selection.
use vstd::prelude::*;

use crate::list::copy_list;
use crate::search::Matches;
use crate::text::texts;
use crate::theme::ThemeEntry;
use crate::theme::ThemeView;
use crate::theme::themes;

verus! {

/// What the keyboard is used for at the moment.
#[derive(Debug, Clone, Copy, PartialEq, Eq, Structural)]
pub enum Mode {
    Normal,
    Input,
    AdjustInput,
    Help,
}

/// The picker. `A` is one adjustment of a theme's colours; nothing here looks inside.
#[derive(Debug)]
pub struct State<A> {
    /// Terminal dimensions `(cols, rows)`.
    pub size: (u16, u16),
    pub mode: Mode,
    pub input_buf: String,
    /// Visual cursor position within the list column.
    pub cursor: (u16, u16),
    pub list: Vec<ThemeEntry>,
    /// Index of the first visible list entry.
    pub list_offset: usize,
    /// Absolute index of the selected entry in `list`.
    pub list_index: usize,
    /// Minimum number of visible rows to keep above and below the selection.
    pub scrolloff: usize,
    pub current_theme: Option<String>,
    /// Theme names from the favourites file, mirrored for the marker in the list.
    pub favourites: Vec<String>,
    pub adjust: Vec<A>,
    pub adjust_input_buf: String,
}

/// What a [`State`] stands for.
#[verifier::ext_equal]
pub struct StateView<A> {
    pub cols: int,
    pub rows: int,
    pub mode: Mode,
    pub input: Seq<char>,
    pub cursor_col: int,
    pub cursor_row: int,
    pub list: Seq<ThemeView>,
    pub offset: int,
    pub index: int,
    pub scrolloff: int,
    pub current_theme: Option<Seq<char>>,
    pub favourites: Seq<Seq<char>>,
    pub adjust: Seq<A>,
    pub adjust_input: Seq<char>,
}

pub open spec fn optional_text(s: Option<String>) -> Option<Seq<char>> {
    match s {
        Some(text) => Some(text@),
        None => None,
    }
}

impl<A> View for State<A> {
    type V = StateView<A>;

    open spec fn view(&self) -> StateView<A> {
        StateView {
            cols: self.size.0 as int,
            rows: self.size.1 as int,
            mode: self.mode,
            input: self.input_buf@,
            cursor_col: self.cursor.0 as int,
            cursor_row: self.cursor.1 as int,
            list: themes(self.list@),
            offset: self.list_offset as int,
            index: self.list_index as int,
            scrolloff: self.scrolloff as int,
            current_theme: optional_text(self.current_theme),
            favourites: texts(self.favourites@),
            adjust: self.adjust@,
            adjust_input: self.adjust_input_buf@,
        }
    }
}

pub open spec fn min(a: int, b: int) -> int {
    if a <= b { a } else { b }
}

/// `a`, but at least zero.
pub open spec fn floor0(a: int) -> int {
    if a <= 0 { 0 } else { a }
}

impl<A> StateView<A> {
    /// Rows that the list can take up: all but the bottom line.
    pub open spec fn visible_rows(self) -> int {
        floor0(self.rows - 1)
    }

    /// Entries below the lower edge of the list.
    pub open spec fn hidden_below(self) -> int {
        floor0(self.list.len() - self.offset - self.visible_rows())
    }

    /// The lowest row that the cursor can get to.
    pub open spec fn last_row(self) -> int {
        floor0(min(self.visible_rows(), self.list.len() - self.offset) - 1)
    }

    /// The places are counted from zero up, as they are in every picker.
    pub open spec fn counted(self) -> bool {
        0 <= self.offset && 0 <= self.cursor_row && 0 <= self.index && 0 <= self.scrolloff
    }

    /// The selection stands where the offset and the cursor say, on an entry of the list,
    /// or at its beginning.
    pub open spec fn positioned(self) -> bool {
        &&& 0 <= self.offset
        &&& 0 <= self.cursor_row
        &&& 0 <= self.scrolloff
        &&& self.index == self.offset + self.cursor_row
        &&& self.index < self.list.len() || self.index == 0
    }

    /// The selected row is among those that the list can take up.
    pub open spec fn in_view(self) -> bool {
        self.cursor_row < self.visible_rows()
    }

    /// At least `scrolloff` rows are visible above the selection, or the first entry is;
    /// and at least `scrolloff` below it, or the last entry is.
    pub open spec fn margins_kept(self) -> bool {
        &&& self.scrolloff <= self.cursor_row || self.offset == 0
        &&& self.cursor_row + self.scrolloff < self.visible_rows() || self.hidden_below() == 0
    }

    /// The state with the first entry selected and shown first.
    pub open spec fn at_top(self) -> Self {
        StateView { offset: 0, index: 0, cursor_row: 0, ..self }
    }

    /// The state with the selection `moved` entries on from here, `scrolled` of them by
    /// moving the list under the cursor and the rest by moving the cursor.
    pub open spec fn displaced(self, moved: int, scrolled: int) -> Self {
        StateView {
            index: self.index + moved,
            offset: self.offset + scrolled,
            cursor_row: self.cursor_row + (moved - scrolled),
            ..self
        }
    }

    /// The selection `n` entries up, or as far as there is room: the cursor first climbs
    /// to `scrolloff` rows below the top, then the list scrolls, and once it shows its
    /// first entry the cursor climbs on.
    pub open spec fn scrolled_up(self, n: nat) -> Self {
        let moved = min(n as int, min(self.index, self.offset + self.cursor_row));
        let climb = floor0(self.cursor_row - self.scrolloff);
        let scrolled = min(floor0(moved - climb), self.offset);
        self.displaced(-moved, -scrolled)
    }

    /// The selection `n` entries down, or as far as there is room: the cursor first
    /// descends to `scrolloff` rows above the bottom, then the list scrolls, and once it
    /// shows its last entry the cursor descends on.
    pub open spec fn scrolled_down(self, n: nat) -> Self {
        let room = self.hidden_below() + floor0(self.last_row() - self.cursor_row);
        let moved = min(n as int, min(floor0(self.list.len() - 1 - self.index), room));
        let turn = floor0(self.visible_rows() - 1 - self.scrolloff);
        let descent = floor0(turn - self.cursor_row);
        let scrolled = min(floor0(moved - descent), self.hidden_below());
        self.displaced(moved, scrolled)
    }
}

/// Scrolling up moves the selection by exactly the entries asked for, short only of the
/// first entry, and keeps the selection at its place in the list.
pub proof fn law_scroll_up<A>(s: StateView<A>, n: nat)
    requires
        s.positioned(),
    ensures
        s.scrolled_up(n).positioned(),
        s.scrolled_up(n).index == floor0(s.index - n),
{
}

/// Scrolling down moves the selection by exactly the entries asked for, short only of
/// the last entry, and keeps the selection at its place in the list.
pub proof fn law_scroll_down<A>(s: StateView<A>, n: nat)
    requires
        s.positioned(),
    ensures
        s.scrolled_down(n).positioned(),
        s.list.len() > 0 ==> s.scrolled_down(n).index == min(
            s.index + n,
            s.list.len() - 1,
        ),
        s.list.len() == 0 ==> s.scrolled_down(n) == s,
{
}

proof fn lemma_scrolls_down_add_up<A>(s: StateView<A>, m: nat, n: nat)
    requires
        0 <= s.scrolloff,
    ensures
        s.scrolled_down(m).scrolled_down(n) == s.scrolled_down(m + n),
{
    let t = s.scrolled_down(m);
    let moved = t.index - s.index;
    let scrolled = t.offset - s.offset;
    assert(t.hidden_below() == s.hidden_below() - scrolled);
    if moved < m {
        assert(t.scrolled_down(n) == t);
    } else {
        assert(moved == m);
    }
}

/// Scrolling by `m` and then by `n` is scrolling by `m + n`, wherever the selection stands.
pub proof fn law_scrolls_add_up<A>(s: StateView<A>, m: nat, n: nat)
    requires
        0 <= s.scrolloff,
    ensures
        s.scrolled_up(m).scrolled_up(n) == s.scrolled_up(m + n),
        s.scrolled_down(m).scrolled_down(n) == s.scrolled_down(m + n),
{
    lemma_scrolls_down_add_up(s, m, n);
}

/// Scrolling up undoes scrolling down, and the other way round, as far as the selected
/// entry goes, wherever the list has that many entries left.
pub proof fn law_scroll_back<A>(s: StateView<A>, n: nat)
    requires
        s.positioned(),
    ensures
        s.index + n < s.list.len() ==> s.scrolled_down(n).scrolled_up(n).index
            == s.index,
        n <= s.index ==> s.scrolled_up(n).scrolled_down(n).index == s.index,
{
}

/// Scrolling keeps the selection on the screen.
pub proof fn law_scroll_keeps_in_view<A>(s: StateView<A>, n: nat)
    requires
        s.counted(),
        s.in_view(),
    ensures
        s.scrolled_up(n).in_view(),
        s.scrolled_down(n).in_view(),
{
}

/// Where the screen is tall enough for both margins or for the whole list, scrolling keeps
/// `scrolloff` rows visible above and below the selection, except at the ends of the list.
pub proof fn law_scroll_keeps_margins<A>(s: StateView<A>, n: nat)
    requires
        s.counted(),
        2 * s.scrolloff < s.visible_rows() || s.list.len() <= s.visible_rows(),
        s.margins_kept(),
    ensures
        s.scrolled_up(n).margins_kept(),
        s.scrolled_down(n).margins_kept(),
{
}

/// The margins hold at the first entry.
pub proof fn law_margins_at_top<A>(s: StateView<A>)
    requires
        0 <= s.scrolloff,
        2 * s.scrolloff < s.visible_rows(),
    ensures
        s.at_top().margins_kept(),
{
}

impl<A> State<A> {
    /// Moves the selection up by `n` entries, or to the first.
    pub fn scroll_list_up(&mut self, n: usize)
        ensures
            final(self)@ == old(self)@.scrolled_up(n as nat),
    {
        let ghost start = self@;
        let mut done: usize = 0;
        while done < n
            invariant_except_break
                done <= n,
                self@ == start.scrolled_up(done as nat),
            ensures
                self@ == start.scrolled_up(n as nat),
            decreases n - done,
        {
            if self.list_index == 0 {
                break;
            }
            let can_scroll = self.list_offset > 0;
            let top_limit: usize = if can_scroll { self.scrolloff } else { 0 };
            if (self.cursor.1 as usize) > top_limit {
                self.cursor.1 = self.cursor.1 - 1;
                self.list_index = self.list_index - 1;
            } else if can_scroll {
                self.list_offset = self.list_offset - 1;
                self.list_index = self.list_index - 1;
            } else {
                break;
            }
            done = done + 1;
        }
    }

    /// Moves the selection down by `n` entries, or to the last.
    pub fn scroll_list_down(&mut self, n: usize)
        requires
            old(self).list_index < usize::MAX,
        ensures
            final(self)@ == old(self)@.scrolled_down(n as nat),
    {
        let ghost start = self@;
        let mut done: usize = 0;
        while done < n
            invariant_except_break
                done <= n,
                self.list_index < usize::MAX,
                self@ == start.scrolled_down(done as nat),
            ensures
                self@ == start.scrolled_down(n as nat),
            decreases n - done,
        {
            if self.list_index + 1 >= self.list.len() {
                break;
            }
            let visible_rows: usize = self.size.1.saturating_sub(1) as usize;
            let remaining: usize = self.list.len().saturating_sub(self.list_offset);
            let can_scroll = remaining > visible_rows;
            let shown: usize = if remaining < visible_rows { remaining } else { visible_rows };
            let max_cursor_row: usize = shown.saturating_sub(1);
            let bottom_limit: usize = if can_scroll {
                max_cursor_row.saturating_sub(self.scrolloff)
            } else {
                max_cursor_row
            };
            if (self.cursor.1 as usize) < bottom_limit {
                self.cursor.1 = self.cursor.1 + 1;
                self.list_index = self.list_index + 1;
            } else if can_scroll {
                self.list_offset = self.list_offset + 1;
                self.list_index = self.list_index + 1;
            } else {
                break;
            }
            done = done + 1;
        }
    }
}

/// Rows kept around the selection on a screen that is not small.
pub const DEFAULT_SCROLLOFF: usize = 6;

impl<A> StateView<A> {
    /// The rows to keep around the selection on a screen of this height.
    pub open spec fn fitting_scrolloff(self) -> int {
        if self.rows <= 2 * DEFAULT_SCROLLOFF + 2 {
            DEFAULT_SCROLLOFF as int / 2 + 1
        } else {
            DEFAULT_SCROLLOFF as int
        }
    }

    /// The state with this list.
    pub open spec fn listing(self, list: Seq<ThemeView>) -> Self {
        StateView { list, ..self }
    }

    /// The state with the rows kept around the selection suited to the screen.
    pub open spec fn refitted(self) -> Self {
        StateView { scrolloff: self.fitting_scrolloff(), ..self }
    }

    /// The state with the list that the current query calls for: the whole catalogue for an
    /// empty one, else the matches found for it.
    pub open spec fn filtered(self, catalogue: Seq<ThemeView>, found: Matches) -> Self {
        self.listing(
            if self.input.len() == 0 {
                catalogue
            } else {
                found.ranked()
            },
        )
    }

    /// The state with the adjustments that the current text was parsed to.
    pub open spec fn adjusted(self, parsed: Option<Seq<A>>) -> Self {
        StateView {
            adjust: if self.adjust_input.len() == 0 {
                Seq::empty()
            } else {
                match parsed {
                    Some(adjust) => adjust,
                    None => self.adjust,
                }
            },
            ..self
        }
    }

    /// The state in this mode.
    pub open spec fn in_mode(self, mode: Mode) -> Self {
        StateView { mode, ..self }
    }

    /// The picker as it starts.
    pub open spec fn starting(
        size: (u16, u16),
        list: Seq<ThemeView>,
        current_theme: Option<Seq<char>>,
        favourites: Seq<Seq<char>>,
        adjust: Seq<A>,
        mode: Mode,
    ) -> Self {
        StateView {
            cols: size.0 as int,
            rows: size.1 as int,
            mode,
            input: Seq::empty(),
            cursor_col: 0,
            cursor_row: 0,
            list,
            offset: 0,
            index: 0,
            scrolloff: DEFAULT_SCROLLOFF as int,
            current_theme,
            favourites,
            adjust,
            adjust_input: Seq::empty(),
        }
    }
}

/// The mode to start in, with a query or the help asked for or not.
pub open spec fn starting_mode(init_input: bool, init_help: bool) -> Mode {
    if init_input {
        Mode::Input
    } else if init_help {
        Mode::Help
    } else {
        Mode::Normal
    }
}

/// From ten rows on, the screen has room for the margins around the selection.
pub proof fn law_scrolloff_fits<A>(s: StateView<A>)
    requires
        s.rows >= 10,
    ensures
        2 * s.fitting_scrolloff() < s.visible_rows(),
{
}

impl<A> State<A> {
    /// The picker at its start: on the first entry of `list`, in the mode asked for.
    pub fn new(
        size: (u16, u16),
        list: Vec<ThemeEntry>,
        current_theme: Option<String>,
        favourites: Option<Vec<String>>,
        adjust: Vec<A>,
        init_input: bool,
        init_help: bool,
    ) -> (state: State<A>)
        ensures
            state@ == StateView::starting(
                size,
                themes(list@),
                optional_text(current_theme),
                match favourites {
                    Some(names) => texts(names@),
                    None => Seq::empty(),
                },
                adjust@,
                if init_input {
                    Mode::Input
                } else if init_help {
                    Mode::Help
                } else {
                    Mode::Normal
                },
            ),
            state@.mode == starting_mode(init_input, init_help),
    {
        let mode = if init_input {
            Mode::Input
        } else if init_help {
            Mode::Help
        } else {
            Mode::Normal
        };
        let favourites = match favourites {
            Some(names) => names,
            None => Vec::new(),
        };
        let state = State {
            size,
            mode,
            input_buf: String::new(),
            cursor: (0, 0),
            list,
            list_offset: 0,
            list_index: 0,
            scrolloff: DEFAULT_SCROLLOFF,
            current_theme,
            favourites,
            adjust,
            adjust_input_buf: String::new(),
        };
        assert(favourites@.len() == 0 ==> texts(favourites@) =~= Seq::empty());
        state
    }

    /// Selects the first entry and shows it first.
    pub fn reset_pos(&mut self)
        ensures
            final(self)@ == old(self)@.at_top(),
    {
        self.list_offset = 0;
        self.list_index = 0;
        self.cursor.1 = 0;
    }

    /// Lists the whole catalogue. The selection stays where it is.
    pub fn reset_list(&mut self, catalogue: &Vec<ThemeEntry>)
        ensures
            final(self)@ == old(self)@.listing(themes(catalogue@)),
    {
        self.list = copy_list(catalogue);
    }

    /// Lists what matches the current query: the whole catalogue for an empty one, else
    /// the matches found for it, the better ones first.
    pub fn filter_list_by_input(&mut self, catalogue: &Vec<ThemeEntry>, found: Matches)
        ensures
            final(self)@ == old(self)@.filtered(themes(catalogue@), found),
    {
        if self.input_buf.as_str().is_empty() {
            self.reset_list(catalogue);
        } else {
            self.list = found.rank();
        }
    }

    /// Takes up the adjustments that the current text was parsed to. An empty text stands
    /// for none; a text that could not be parsed leaves the adjustments as they are.
    pub fn process_adjust_input(&mut self, parsed: Option<Vec<A>>)
        ensures
            final(self)@ == (StateView {
                adjust: if old(self)@.adjust_input.len() == 0 {
                    Seq::empty()
                } else {
                    match parsed {
                        Some(adjust) => adjust@,
                        None => old(self)@.adjust,
                    }
                },
                ..old(self)@
            }),
            final(self)@ == old(self)@.adjusted(
                match parsed {
                    Some(adjust) => Some(adjust@),
                    None => None,
                },
            ),
    {
        if self.adjust_input_buf.as_str().is_empty() {
            self.adjust.clear();
            return;
        }
        if let Some(adjust) = parsed {
            self.adjust = adjust;
        }
    }

    /// Suits the rows kept around the selection to the height of the screen.
    pub fn fit_scrolloff(&mut self)
        ensures
            final(self)@ == old(self)@.refitted(),
    {
        if self.size.1 as usize <= DEFAULT_SCROLLOFF * 2 + 2 {
            self.scrolloff = DEFAULT_SCROLLOFF / 2 + 1;
        } else {
            self.scrolloff = DEFAULT_SCROLLOFF;
        }
    }
}

/// What is listed for a query rests on the query alone, however the catalogue is searched:
/// pickers with the same query list the same, whatever they listed before, and to filter
/// again changes nothing.
pub proof fn law_filter_by_query<A>(
    a: StateView<A>,
    b: StateView<A>,
    catalogue: Seq<ThemeView>,
    search: spec_fn(Seq<char>) -> Matches,
)
    requires
        a.input == b.input,
    ensures
        a.filtered(catalogue, search(a.input)).list == b.filtered(catalogue, search(b.input)).list,
        ({
            let once = a.filtered(catalogue, search(a.input));
            once.filtered(catalogue, search(once.input)) == once
        }),
{
}

/// One entry down. Where the rest of the list is on the screen, or `scrolloff` rows stay
/// visible below the cursor, the cursor goes down; else the list scrolls under it. At the
/// last entry nothing moves, however far one scrolls.
pub proof fn law_step_down<A>(s: StateView<A>, n: nat)
    requires
        s.positioned(),
        1 <= s.rows,
    ensures
        s.index + 1 < s.list.len() ==> s.scrolled_down(1) == if s.list.len() - s.offset <= s.rows
            - 1 || s.cursor_row + 1 + s.scrolloff < s.rows - 1 {
            StateView { index: s.index + 1, cursor_row: s.cursor_row + 1, ..s }
        } else {
            StateView { index: s.index + 1, offset: s.offset + 1, ..s }
        },
        s.index + 1 >= s.list.len() ==> s.scrolled_down(n) == s,
{
}

/// One entry down from wherever the selection stands, though that be at another place than the
/// cursor: the list scrolls only if entries are hidden below, and only once the cursor is as
/// low as it may get; where neither can move, nothing does.
pub proof fn law_step_down_anywhere<A>(s: StateView<A>, n: nat)
    requires
        s.counted(),
        1 <= s.rows,
    ensures
        s.index + 1 >= s.list.len() ==> s.scrolled_down(n) == s,
        s.index + 1 < s.list.len() ==> {
            let below = s.list.len() - s.offset - (s.rows - 1);
            let cursor_moves = if below > 0 {
                s.cursor_row + 1 + s.scrolloff < s.rows - 1
            } else {
                s.cursor_row + 1 < s.list.len() - s.offset
            };
            s.scrolled_down(1) == if cursor_moves {
                StateView { index: s.index + 1, cursor_row: s.cursor_row + 1, ..s }
            } else if below > 0 {
                StateView { index: s.index + 1, offset: s.offset + 1, ..s }
            } else {
                s
            }
        },
        s.scrolled_down(0) == s,
{
}

/// One entry up from wherever the selection stands: while entries are hidden above, the cursor
/// goes up only if more than `scrolloff` rows are above it, and else the list scrolls; where
/// neither can move, nothing does. At the first entry nothing moves, however far one scrolls.
pub proof fn law_step_up<A>(s: StateView<A>, n: nat)
    requires
        s.counted(),
    ensures
        s.index == 0 ==> s.scrolled_up(n) == s,
        s.index > 0 ==> {
            let cursor_moves = s.cursor_row > 0 && (s.offset == 0 || s.cursor_row > s.scrolloff);
            s.scrolled_up(1) == if cursor_moves {
                StateView { index: s.index - 1, cursor_row: s.cursor_row - 1, ..s }
            } else if s.offset > 0 {
                StateView { index: s.index - 1, offset: s.offset - 1, ..s }
            } else {
                s
            }
        },
        s.scrolled_up(0) == s,
{
}

/// Six rows are kept around the selection, and four on a screen of at most 14 rows. Nothing
/// else changes when they are suited to the screen.
pub proof fn law_margins<A>(s: StateView<A>)
    ensures
        s.rows <= 14 ==> s.refitted() == (StateView { scrolloff: 4, ..s }),
        s.rows > 14 ==> s.refitted() == (StateView { scrolloff: 6, ..s }),
{
}

/// A query lists the matches found for it, an empty one the whole catalogue. Nothing but the
/// list changes, the place of the selection neither.
pub proof fn law_filtered_list<A>(s: StateView<A>, catalogue: Seq<ThemeView>, found: Matches)
    ensures
        s.input.len() == 0 ==> s.filtered(catalogue, found).list == catalogue,
        s.input.len() > 0 ==> s.filtered(catalogue, found).list == found.ranked(),
        s.filtered(catalogue, found) == (StateView {
            list: s.filtered(catalogue, found).list,
            ..s
        }),
{
}

/// Adjustments that could be parsed take the place of those before, whatever they were; those
/// that could not change nothing; and an empty text stands for none. Nothing else changes.
pub proof fn law_adjusted<A>(s: StateView<A>, parsed: Option<Seq<A>>)
    ensures
        s.adjust_input.len() == 0 ==> s.adjusted(parsed).adjust.len() == 0,
        s.adjust_input.len() > 0 && parsed is Some ==> s.adjusted(parsed).adjust == parsed->0,
        s.adjust_input.len() > 0 && parsed is None ==> s.adjusted(parsed) == s,
        s.adjusted(parsed) == (StateView { adjust: s.adjusted(parsed).adjust, ..s }),
{
}

/// The picker starts on the first entry of its list, with the cursor in the corner and no text
/// typed, and else as it was told. It starts with a query if that is asked for, else with the
/// help if that is, else with the list.
pub proof fn law_start<A>(
    size: (u16, u16),
    list: Seq<ThemeView>,
    current_theme: Option<Seq<char>>,
    favourites: Seq<Seq<char>>,
    adjust: Seq<A>,
    init_input: bool,
    init_help: bool,
)
    ensures
        ({
            let mode = starting_mode(init_input, init_help);
            let s = StateView::starting(size, list, current_theme, favourites, adjust, mode);
            &&& s.cols == size.0 && s.rows == size.1
            &&& s.list == list && s.current_theme == current_theme
            &&& s.favourites == favourites && s.adjust == adjust
            &&& s.index == 0 && s.offset == 0 && s.cursor_row == 0 && s.cursor_col == 0
            &&& s.input.len() == 0 && s.adjust_input.len() == 0
            &&& s.scrolloff == 6
            &&& s.mode == Mode::Input <==> init_input
            &&& s.mode == Mode::Help <==> init_help && !init_input
            &&& s.mode != Mode::AdjustInput
        }),
{
}

} // verus!
