//! One session of the picker: what follows from each event, and from the answers of the
//! program around it.
use vstd::prelude::*;
use vstd::seq_lib::to_multiset_len;

use crate::keys::Command;
use crate::keys::Key;
use crate::keys::binding;
use crate::keys::command_for;
use crate::list::collect_found;
use crate::list::copy_list;
use crate::list::dedup;
use crate::list::find_named;
use crate::list::first_named;
use crate::list::found_themes;
use crate::list::is_sorting_of;
use crate::list::law_reverse_twice;
use crate::list::law_sorting_keeps_themes;
use crate::list::named_in;
use crate::list::of_lightness;
use crate::list::only;
use crate::list::reverse;
use crate::list::select_named;
use crate::list::shuffle_list;
use crate::list::sort;
use crate::list::take_list;
use crate::list::without_repeats;
use crate::search::Matches;
use crate::search::resolve_names;
use crate::search::resolved;
use crate::state::Mode;
use crate::state::State;
use crate::state::StateView;
use crate::state::law_scroll_down;
use crate::state::law_scroll_up;
use crate::state::optional_text;
use crate::text::first_word;
use crate::text::texts;
use crate::text::word;
use crate::theme::ThemeEntry;
use crate::theme::ThemeView;
use crate::theme::themes;

verus! {

/// Something that happened at the terminal.
#[derive(Debug, Clone, Copy)]
pub enum Event {
    /// A key was pressed, with or without the control key.
    Key { key: Key, ctrl: bool },
    /// The terminal now has this many columns and rows.
    Resize(u16, u16),
    Other,
}

/// What is to be done next, outside the picker. `T` is a text.
#[derive(Debug)]
pub enum Effect<T> {
    /// Draw the screen, then wait for the next event.
    Redraw,
    /// Wait for the next event; the screen stays as it is.
    Wait,
    /// Leave the picker.
    Quit,
    /// Load the theme of this rank and hand in its name.
    Choose(usize),
    /// Apply the theme of this rank and name, with the adjustments of the picker made to
    /// it, and hand in whether that worked.
    Apply(usize, T),
    /// Search the catalogue for this query and hand in the matches.
    Search(T),
    /// Parse these adjustments, or those in the file of this name, and hand them in.
    Parse(T),
    /// Toggle this name in the favourites.
    Toggle(T),
    /// Search the catalogue for something like each favourite and hand in the answers.
    Resolve,
    /// Look the themes applied recently up in the catalogue and hand them in.
    Recall,
}

impl View for Effect<String> {
    type V = Effect<Seq<char>>;

    open spec fn view(&self) -> Effect<Seq<char>> {
        match *self {
            Effect::Redraw => Effect::Redraw,
            Effect::Wait => Effect::Wait,
            Effect::Quit => Effect::Quit,
            Effect::Choose(rank) => Effect::Choose(rank),
            Effect::Apply(rank, name) => Effect::Apply(rank, name@),
            Effect::Search(query) => Effect::Search(query@),
            Effect::Parse(text) => Effect::Parse(text@),
            Effect::Toggle(name) => Effect::Toggle(name@),
            Effect::Resolve => Effect::Resolve,
            Effect::Recall => Effect::Recall,
        }
    }
}

impl<T> Effect<T> {
    /// Once this is done, the rows kept around the selection are suited to the screen, and
    /// the screen is drawn.
    pub open spec fn redraws(self) -> bool {
        !(self is Wait || self is Quit)
    }
}

impl<A> StateView<A> {
    /// There is a selected entry.
    pub open spec fn has_selection(self) -> bool {
        0 <= self.index < self.list.len()
    }

    pub open spec fn selected(self) -> ThemeView {
        self.list[self.index]
    }

    /// Half a page, in rows.
    pub open spec fn half_page(self) -> nat {
        if self.rows / 2 > 1 {
            (self.rows / 2) as nat
        } else {
            1
        }
    }

    /// The state with this query, and the search that it calls for: none if it is empty,
    /// which lists the catalogue.
    pub open spec fn searching(self, query: Seq<char>, catalogue: Seq<ThemeView>) -> (
        Self,
        Effect<Seq<char>>,
    ) {
        if query.len() == 0 {
            (StateView { input: query, list: catalogue, ..self }, Effect::Redraw)
        } else {
            (StateView { input: query, ..self }, Effect::Search(query))
        }
    }

    /// The state with these adjustments typed, and the parse that they call for: none if
    /// nothing is typed, which stands for no adjustments.
    pub open spec fn adjusting(self, text: Seq<char>) -> (Self, Effect<Seq<char>>) {
        if text.len() == 0 {
            (StateView { adjust_input: text, adjust: Seq::empty(), ..self }, Effect::Redraw)
        } else {
            (StateView { adjust_input: text, ..self }, Effect::Parse(text))
        }
    }
}

/// `s` without its last character.
pub open spec fn erased(s: Seq<char>) -> Seq<char> {
    if s.len() > 0 {
        s.drop_last()
    } else {
        s
    }
}

/// What a command leads to, in a picker over this catalogue. Putting the list in another
/// order by shuffling or sorting is left to [`performed`].
pub open spec fn outcome<A>(
    s: StateView<A>,
    command: Command,
    catalogue: Seq<ThemeView>,
) -> (StateView<A>, Effect<Seq<char>>) {
    match command {
        Command::Nothing | Command::Shuffle | Command::Sort => (s, Effect::Redraw),
        Command::Quit => (s, Effect::Quit),
        Command::Choose => if s.has_selection() {
            (s, Effect::Choose(s.selected().rank as usize))
        } else {
            (s, Effect::Wait)
        },
        Command::Up => (s.scrolled_up(1), Effect::Redraw),
        Command::Down => (s.scrolled_down(1), Effect::Redraw),
        Command::First => (s.at_top(), Effect::Redraw),
        Command::Last => (s.scrolled_down(s.list.len()), Effect::Redraw),
        Command::HalfUp => (s.scrolled_up(s.half_page()), Effect::Redraw),
        Command::HalfDown => (s.scrolled_down(s.half_page()), Effect::Redraw),
        Command::StartInput => {
            s.in_mode(Mode::Input).at_top().searching(Seq::empty(), catalogue)
        },
        Command::StartAdjust => (s.in_mode(Mode::AdjustInput), Effect::Redraw),
        Command::ShowHelp => (s.in_mode(Mode::Help), Effect::Redraw),
        Command::Only(light) => {
            let from = if s.list.len() == 0 {
                catalogue
            } else {
                s.list
            };
            (s.listing(from.filter(of_lightness(light))).at_top(), Effect::Redraw)
        },
        Command::Reverse => (s.listing(s.list.reverse()), Effect::Redraw),
        Command::Family => if s.has_selection() {
            s.at_top().searching(first_word(s.selected().name), catalogue)
        } else if s.list.len() == 0 {
            (s, Effect::Wait)
        } else {
            (s, Effect::Redraw)
        },
        Command::ToggleFavourite => if s.has_selection() {
            (s, Effect::Toggle(s.selected().name))
        } else {
            (s, Effect::Redraw)
        },
        Command::ListFavourites => if s.favourites.len() > 0 {
            (s, Effect::Resolve)
        } else {
            (s, Effect::Redraw)
        },
        Command::ListHistory => (s, Effect::Recall),
        Command::ListAll => (s.listing(catalogue), Effect::Redraw),
        Command::BackToList => (s.in_mode(Mode::Normal), Effect::Redraw),
        Command::TypeInput(c) => s.searching(s.input.push(c), catalogue),
        Command::EraseInput => s.searching(erased(s.input), catalogue),
        Command::TypeAdjust(c) => s.adjusting(s.adjust_input.push(c)),
        Command::EraseAdjust => s.adjusting(erased(s.adjust_input)),
    }
}

/// What is to be done next, once applying a theme worked or did not.
pub open spec fn apply_end(worked: bool, quit_on_select: bool) -> Effect<Seq<char>> {
    if worked && quit_on_select {
        Effect::Quit
    } else {
        Effect::Redraw
    }
}

/// `command` takes the picker from `before` to `after` and calls for `effect`.
pub open spec fn performed<A>(
    before: StateView<A>,
    command: Command,
    catalogue: Seq<ThemeView>,
    after: StateView<A>,
    effect: Effect<Seq<char>>,
) -> bool {
    match command {
        Command::Shuffle => {
            &&& after == before.listing(after.list)
            &&& after.list.to_multiset() == before.list.to_multiset()
            &&& effect == Effect::<Seq<char>>::Redraw
        },
        Command::Sort => {
            &&& after == before.listing(after.list)
            &&& is_sorting_of(after.list, before.list)
            &&& effect == Effect::<Seq<char>>::Redraw
        },
        _ => (after, effect) == outcome(before, command, catalogue),
    }
}

/// `event` takes the picker from `before` to `after` and calls for `effect`.
pub open spec fn handled<A>(
    before: StateView<A>,
    event: Event,
    catalogue: Seq<ThemeView>,
    after: StateView<A>,
    effect: Effect<Seq<char>>,
) -> bool {
    match event {
        Event::Key { key, ctrl } => performed(
            before,
            binding(before.mode, key, ctrl),
            catalogue,
            after,
            effect,
        ),
        Event::Resize(cols, rows) => {
            &&& after == StateView { cols: cols as int, rows: rows as int, ..before }
            &&& effect == Effect::<Seq<char>>::Redraw
        },
        Event::Other => after == before && effect == Effect::<Seq<char>>::Redraw,
    }
}

impl<A> State<A> {
    /// Goes on after the query was changed.
    fn query_changed(&mut self, catalogue: &Vec<ThemeEntry>) -> (effect: Effect<String>)
        ensures
            (final(self)@, effect@) == old(self)@.searching(old(self)@.input, themes(catalogue@)),
    {
        if self.input_buf.as_str().is_empty() {
            self.filter_list_by_input(catalogue, Matches::none());
            Effect::Redraw
        } else {
            Effect::Search(self.input_buf.clone())
        }
    }

    /// Goes on after the adjustments typed were changed.
    fn adjustments_changed(&mut self) -> (effect: Effect<String>)
        ensures
            (final(self)@, effect@) == old(self)@.adjusting(old(self)@.adjust_input),
    {
        if self.adjust_input_buf.as_str().is_empty() {
            self.process_adjust_input(None);
            Effect::Redraw
        } else {
            Effect::Parse(self.adjust_input_buf.clone())
        }
    }

    /// Half a page, in rows.
    fn half(&self) -> (half: usize)
        ensures
            half == self@.half_page(),
    {
        let half: usize = self.size.1 as usize / 2;
        if half > 1 {
            half
        } else {
            1
        }
    }

    /// Keeps only the light themes of the list, or only the dark ones; of the catalogue,
    /// if the list is empty.
    fn keep_only(&mut self, light: bool, catalogue: &Vec<ThemeEntry>)
        ensures
            (final(self)@, Effect::<Seq<char>>::Redraw) == outcome(
                old(self)@,
                Command::Only(light),
                themes(catalogue@),
            ),
    {
        if self.list.len() == 0 {
            self.reset_list(catalogue);
        }
        let from = take_list(&mut self.list);
        self.list = only(from, light);
        self.reset_pos();
    }

    /// Filters by the first word of the selected name.
    fn filter_by_family(&mut self, catalogue: &Vec<ThemeEntry>) -> (effect: Effect<String>)
        ensures
            (final(self)@, effect@) == outcome(old(self)@, Command::Family, themes(catalogue@)),
    {
        if self.list.len() == 0 {
            return Effect::Wait;
        }
        if self.list_index >= self.list.len() {
            return Effect::Redraw;
        }
        self.input_buf = word(self.list[self.list_index].name.as_str());
        self.reset_pos();
        self.query_changed(catalogue)
    }

    /// Does what a command asks for, as far as the picker can do it by itself.
    #[verifier::rlimit(40)]
    pub fn perform(&mut self, command: Command, catalogue: &Vec<ThemeEntry>) -> (effect: Effect<
        String,
    >)
        requires
            old(self).list_index < usize::MAX,
        ensures
            performed(old(self)@, command, themes(catalogue@), final(self)@, effect@),
    {
        match command {
            Command::Nothing => Effect::Redraw,
            Command::Quit => Effect::Quit,
            Command::Choose => if self.list_index < self.list.len() {
                Effect::Choose(self.list[self.list_index].rank)
            } else {
                Effect::Wait
            },
            Command::Up => {
                self.scroll_list_up(1);
                Effect::Redraw
            },
            Command::Down => {
                self.scroll_list_down(1);
                Effect::Redraw
            },
            Command::First => {
                self.reset_pos();
                Effect::Redraw
            },
            Command::Last => {
                let len: usize = self.list.len();
                self.scroll_list_down(len);
                Effect::Redraw
            },
            Command::HalfUp => {
                let half: usize = self.half();
                self.scroll_list_up(half);
                Effect::Redraw
            },
            Command::HalfDown => {
                let half: usize = self.half();
                self.scroll_list_down(half);
                Effect::Redraw
            },
            Command::StartInput => {
                self.mode = Mode::Input;
                self.input_buf = String::new();
                self.reset_pos();
                self.query_changed(catalogue)
            },
            Command::StartAdjust => {
                self.mode = Mode::AdjustInput;
                Effect::Redraw
            },
            Command::ShowHelp => {
                self.mode = Mode::Help;
                Effect::Redraw
            },
            Command::Only(light) => {
                self.keep_only(light, catalogue);
                Effect::Redraw
            },
            Command::Shuffle => {
                shuffle_list(&mut self.list);
                Effect::Redraw
            },
            Command::Sort => {
                sort(&mut self.list);
                Effect::Redraw
            },
            Command::Reverse => {
                reverse(&mut self.list);
                Effect::Redraw
            },
            Command::Family => self.filter_by_family(catalogue),
            Command::ToggleFavourite => if self.list_index < self.list.len() {
                Effect::Toggle(self.list[self.list_index].name.clone())
            } else {
                Effect::Redraw
            },
            Command::ListFavourites => if self.favourites.len() > 0 {
                Effect::Resolve
            } else {
                Effect::Redraw
            },
            Command::ListHistory => Effect::Recall,
            Command::ListAll => {
                self.reset_list(catalogue);
                Effect::Redraw
            },
            Command::BackToList => {
                self.mode = Mode::Normal;
                Effect::Redraw
            },
            Command::TypeInput(c) => {
                self.input_buf.push(c);
                self.query_changed(catalogue)
            },
            Command::EraseInput => {
                let _ = self.input_buf.pop();
                self.query_changed(catalogue)
            },
            Command::TypeAdjust(c) => {
                self.adjust_input_buf.push(c);
                self.adjustments_changed()
            },
            Command::EraseAdjust => {
                let _ = self.adjust_input_buf.pop();
                self.adjustments_changed()
            },
        }
    }

    /// Takes up an event, and tells what is to be done next.
    pub fn handle_event(&mut self, event: Event, catalogue: &Vec<ThemeEntry>) -> (effect: Effect<
        String,
    >)
        requires
            old(self).list_index < usize::MAX,
        ensures
            handled(old(self)@, event, themes(catalogue@), final(self)@, effect@),
    {
        match event {
            Event::Key { key, ctrl } => {
                let command = command_for(self.mode, key, ctrl);
                self.perform(command, catalogue)
            },
            Event::Resize(cols, rows) => {
                self.size = (cols, rows);
                Effect::Redraw
            },
            Event::Other => Effect::Redraw,
        }
    }

    /// Lists the themes that the favourites stand for. `fuzzy` holds the answer of a fuzzy
    /// search for each of them.
    pub fn show_favourites(
        &mut self,
        fuzzy: Vec<Option<ThemeEntry>>,
        catalogue: &Vec<ThemeEntry>,
    )
        requires
            fuzzy@.len() == old(self).favourites@.len(),
        ensures
            final(self)@ == old(self)@.listing(
                resolved(old(self)@.favourites, themes(catalogue@), fuzzy@),
            ).at_top(),
            final(self)@ == old(self)@.favouring(themes(catalogue@), fuzzy@),
    {
        self.list = resolve_names(&self.favourites, catalogue, fuzzy);
        self.reset_pos();
    }

    /// Lists the themes applied recently, leaving out immediate repetitions; the whole
    /// catalogue, if none of them is in it. Without any history nothing changes.
    pub fn show_history(&mut self, found: Vec<Option<ThemeEntry>>, catalogue: &Vec<ThemeEntry>)
        ensures
            final(self)@ == old(self)@.recalling(
                found_themes(found@),
                themes(catalogue@),
                found@.len(),
            ),
    {
        if found.len() == 0 {
            return;
        }
        self.list = collect_found(found);
        if self.list.len() == 0 {
            self.reset_list(catalogue);
        }
        dedup(&mut self.list);
        self.reset_pos();
    }

    /// Whether a chosen theme has to be applied: it is not the current one, or there are
    /// adjustments to make to it.
    pub fn needs_apply(&self, name: &str) -> (needed: bool)
        ensures
            needed == self@.must_apply(name@),
    {
        match &self.current_theme {
            Some(current) => *current != name.to_string() || self.adjust.len() > 0,
            None => true,
        }
    }

    /// What follows once the chosen theme is loaded: it is applied, if that is needed, and
    /// else the picker goes on.
    pub fn theme_chosen(&self, rank: usize, name: String) -> (effect: Effect<String>)
        ensures
            effect@ == self@.choosing(rank, name@),
    {
        if self.needs_apply(name.as_str()) {
            Effect::Apply(rank, name)
        } else {
            Effect::Redraw
        }
    }

    /// Takes note that a theme was applied, and tells what is to be done next.
    pub fn theme_applied(&mut self, name: String, quit_on_select: bool) -> (effect: Effect<String>)
        ensures
            final(self)@ == old(self)@.applied(name@),
            effect@ == if quit_on_select {
                Effect::<Seq<char>>::Quit
            } else {
                Effect::<Seq<char>>::Redraw
            },
    {
        self.current_theme = Some(name);
        if quit_on_select {
            Effect::Quit
        } else {
            Effect::Redraw
        }
    }

    /// Takes note of how applying a theme ended, and tells what is to be done next: where
    /// it did not work, the current theme stays, and so does the picker.
    pub fn apply_ended(&mut self, name: String, worked: bool, quit_on_select: bool) -> (effect:
        Effect<String>)
        ensures
            final(self)@ == old(self)@.after_apply(name@, worked),
            effect@ == apply_end(worked, quit_on_select),
    {
        if worked {
            self.theme_applied(name, quit_on_select)
        } else {
            Effect::Redraw
        }
    }

    /// Takes note of how applying the chosen theme ended. Tells whether its name is to be
    /// added to the history, once, and what is to be done next.
    pub fn choice_ended(&mut self, name: String, worked: bool, quit_on_select: bool) -> (end: (
        bool,
        Effect<String>,
    ))
        ensures
            end.0 == worked,
            final(self)@ == old(self)@.after_apply(name@, worked),
            end.1@ == apply_end(worked, quit_on_select),
    {
        (worked, self.apply_ended(name, worked, quit_on_select))
    }

    /// Ends a turn, of which `effect` came last and is done: suits the rows kept around the
    /// selection to the screen, and tells whether to draw it.
    pub fn turn_ended(&mut self, effect: &Effect<String>) -> (draw: bool)
        ensures
            draw == effect@.redraws(),
            final(self)@ == old(self)@.turned(effect@),
    {
        match effect {
            Effect::Wait | Effect::Quit => false,
            _ => {
                self.fit_scrolloff();
                true
            },
        }
    }
}

impl<A> StateView<A> {
    /// Choosing the theme of this name calls for it to be applied.
    pub open spec fn must_apply(self, name: Seq<char>) -> bool {
        self.current_theme != Some(name) || self.adjust.len() > 0
    }

    /// What choosing the theme of this rank and name calls for.
    pub open spec fn choosing(self, rank: usize, name: Seq<char>) -> Effect<Seq<char>> {
        if self.must_apply(name) {
            Effect::Apply(rank, name)
        } else {
            Effect::Redraw
        }
    }

    /// What the choice of a theme comes to, if to apply it would work or not: the state, the
    /// history, and what is to be done next.
    pub open spec fn chosen(
        self,
        rank: usize,
        name: Seq<char>,
        worked: bool,
        quit_on_select: bool,
        history: Seq<Seq<char>>,
    ) -> (Self, Seq<Seq<char>>, Effect<Seq<char>>) {
        match self.choosing(rank, name) {
            Effect::Apply(_, applied) => (
                self.after_apply(applied, worked),
                if worked {
                    history.push(applied)
                } else {
                    history
                },
                apply_end(worked, quit_on_select),
            ),
            effect => (self, history, effect),
        }
    }

    /// The state after applying the theme of this name worked or did not.
    pub open spec fn after_apply(self, name: Seq<char>, worked: bool) -> Self {
        if worked {
            self.applied(name)
        } else {
            self
        }
    }

    /// The state after a turn that ended with this effect.
    pub open spec fn turned(self, effect: Effect<Seq<char>>) -> Self {
        if effect.redraws() {
            self.refitted()
        } else {
            self
        }
    }

    /// The state after the theme of this name was applied.
    pub open spec fn applied(self, name: Seq<char>) -> Self {
        StateView { current_theme: Some(name), ..self }
    }

    /// The selection stands at its place, and while a query is typed, which may change the
    /// list at any key, that is the first entry.
    pub open spec fn valid(self) -> bool {
        &&& self.positioned()
        &&& self.mode == Mode::Input ==> self.index == 0
    }

    /// The state with the themes listed that the favourites stand for.
    pub open spec fn favouring(
        self,
        catalogue: Seq<ThemeView>,
        fuzzy: Seq<Option<ThemeEntry>>,
    ) -> Self {
        self.listing(resolved(self.favourites, catalogue, fuzzy)).at_top()
    }

    /// The state with the history listed, of which `found` is in the catalogue.
    pub open spec fn recalling(
        self,
        found: Seq<ThemeView>,
        catalogue: Seq<ThemeView>,
        history_len: nat,
    ) -> Self {
        if history_len == 0 {
            self
        } else if found.len() == 0 {
            self.listing(without_repeats(catalogue)).at_top()
        } else {
            self.listing(without_repeats(found)).at_top()
        }
    }
}

/// The list that the picker starts with: the themes named at the start, else what the
/// favourites stand for, else the whole catalogue.
pub open spec fn first_list(
    init_list: Seq<Seq<char>>,
    favourites: Option<Seq<Seq<char>>>,
    catalogue: Seq<ThemeView>,
    fuzzy: Seq<Option<ThemeEntry>>,
) -> Seq<ThemeView> {
    if init_list.len() > 0 {
        catalogue.filter(named_in(init_list))
    } else {
        match favourites {
            Some(names) => resolved(names, catalogue, fuzzy),
            None => catalogue,
        }
    }
}

/// The list to start with. `favourites` holds the names of the favourites file, if there is
/// such a file, and `fuzzy` the answer of a fuzzy search for each of them; where themes are
/// named at the start, there need be none.
pub fn initial_list(
    init_list: &Vec<String>,
    favourites: &Option<Vec<String>>,
    catalogue: &Vec<ThemeEntry>,
    fuzzy: Vec<Option<ThemeEntry>>,
) -> (list: Vec<ThemeEntry>)
    requires
        init_list@.len() == 0 ==> (favourites matches Some(names) ==> fuzzy@.len()
            == names@.len()),
    ensures
        themes(list@) == first_list(
            texts(init_list@),
            match favourites {
                Some(names) => Some(texts(names@)),
                None => None,
            },
            themes(catalogue@),
            fuzzy@,
        ),
{
    if init_list.len() > 0 {
        return select_named(catalogue, init_list);
    }
    match favourites {
        Some(names) => resolve_names(names, catalogue, fuzzy),
        None => copy_list(catalogue),
    }
}

/// What is printed of the current theme when the picker is left.
#[derive(Debug, Clone, Copy, PartialEq, Eq, Structural)]
pub enum Report {
    /// Its name and its colours.
    Palette,
    /// All of it, as JSON.
    Json,
    /// Its name.
    Header,
}

/// Which entry of the catalogue is printed when the picker is left, and how.
pub open spec fn reported(
    current_theme: Option<Seq<char>>,
    catalogue: Seq<ThemeView>,
    show: bool,
    json: bool,
) -> Option<(int, Report)> {
    match current_theme {
        Some(name) => match first_named(catalogue, name) {
            Some(i) => Some(
                (
                    i,
                    if show {
                        Report::Palette
                    } else if json {
                        Report::Json
                    } else {
                        Report::Header
                    },
                ),
            ),
            None => None,
        },
        None => None,
    }
}

/// Which entry of the catalogue is printed when the picker is left, and how. Nothing is,
/// if no theme of the catalogue is the current one.
pub fn final_report(
    current_theme: &Option<String>,
    catalogue: &Vec<ThemeEntry>,
    show: bool,
    json: bool,
) -> (report: Option<(usize, Report)>)
    ensures
        report is Some <==> (current_theme matches Some(name) && first_named(
            themes(catalogue@),
            name@,
        ) is Some),
        report matches Some((i, kind)) ==> {
            &&& i < catalogue@.len()
            &&& first_named(themes(catalogue@), current_theme->0@) == Some(i as int)
            &&& kind == if show {
                Report::Palette
            } else if json {
                Report::Json
            } else {
                Report::Header
            }
        },
        reported(optional_text(*current_theme), themes(catalogue@), show, json) == match report {
            Some((i, kind)) => Some((i as int, kind)),
            None => None,
        },
{
    let kind = if show {
        Report::Palette
    } else if json {
        Report::Json
    } else {
        Report::Header
    };
    match current_theme {
        Some(name) => match find_named(catalogue, name) {
            Some(i) => Some((i, kind)),
            None => None,
        },
        None => None,
    }
}

/// The picker starts on its first entry.
pub proof fn law_start_valid<A>(
    size: (u16, u16),
    list: Seq<ThemeView>,
    current_theme: Option<Seq<char>>,
    favourites: Seq<Seq<char>>,
    adjust: Seq<A>,
    mode: Mode,
)
    ensures
        StateView::starting(size, list, current_theme, favourites, adjust, mode).valid(),
{
}

/// While a query is typed, the keys stand for nothing that moves the selection.
proof fn lemma_input_bindings(mode: Mode, key: Key, ctrl: bool)
    ensures
        mode == Mode::Input ==> match binding(mode, key, ctrl) {
            Command::Nothing | Command::Quit | Command::BackToList => true,
            Command::TypeInput(_) | Command::EraseInput => true,
            _ => false,
        },
        mode != Mode::Input ==> match binding(mode, key, ctrl) {
            Command::TypeInput(_) | Command::EraseInput => false,
            _ => true,
        },
{
}

proof fn lemma_scroll_valid<A>(s: StateView<A>, n: nat)
    requires
        s.valid(),
        s.mode != Mode::Input,
    ensures
        s.scrolled_up(n).valid(),
        s.scrolled_down(n).valid(),
{
    law_scroll_up(s, n);
    law_scroll_down(s, n);
}

/// The command moves the selection through the list.
spec fn scrolls(command: Command) -> bool {
    match command {
        Command::Up | Command::Down | Command::Last | Command::HalfUp | Command::HalfDown => true,
        _ => false,
    }
}

#[verifier::rlimit(40)]
proof fn lemma_scrolling_keeps_valid<A>(
    before: StateView<A>,
    command: Command,
    catalogue: Seq<ThemeView>,
    after: StateView<A>,
    effect: Effect<Seq<char>>,
)
    requires
        before.valid(),
        before.mode != Mode::Input,
        performed(before, command, catalogue, after, effect),
        scrolls(command),
    ensures
        after.valid(),
        !(effect is Search),
{
    let n: nat = match command {
        Command::Up | Command::Down => 1,
        Command::Last => before.list.len(),
        _ => before.half_page(),
    };
    lemma_scroll_valid(before, n);
    assert(after == before.scrolled_up(n) || after == before.scrolled_down(n));
}

#[verifier::rlimit(40)]
proof fn lemma_command_keeps_valid<A>(
    before: StateView<A>,
    command: Command,
    catalogue: Seq<ThemeView>,
    after: StateView<A>,
    effect: Effect<Seq<char>>,
)
    requires
        before.valid(),
        performed(before, command, catalogue, after, effect),
        !scrolls(command),
        command == Command::ListAll ==> before.index == 0 || before.index < catalogue.len(),
        before.mode == Mode::Input ==> match command {
            Command::Nothing | Command::Quit | Command::BackToList => true,
            Command::TypeInput(_) | Command::EraseInput => true,
            _ => false,
        },
        before.mode != Mode::Input ==> match command {
            Command::TypeInput(_) | Command::EraseInput => false,
            _ => true,
        },
    ensures
        after.valid(),
        effect is Search ==> after.index == 0,
{
    match command {
        Command::Shuffle => {
            to_multiset_len(before.list);
            to_multiset_len(after.list);
        },
        Command::Sort => {
            law_sorting_keeps_themes(after.list, before.list);
        },
        _ => {},
    }
}

/// Whatever happens at the terminal, the selection stays on an entry of the list, and it
/// is on the first wherever a search is called for. The one exception is to list all
/// themes while a list longer than the catalogue is shown.
pub proof fn law_events_keep_valid<A>(
    before: StateView<A>,
    event: Event,
    catalogue: Seq<ThemeView>,
    after: StateView<A>,
    effect: Effect<Seq<char>>,
)
    requires
        before.valid(),
        handled(before, event, catalogue, after, effect),
        event matches Event::Key { key, ctrl } ==> binding(before.mode, key, ctrl)
            == Command::ListAll ==> before.index == 0 || before.index < catalogue.len(),
    ensures
        after.valid(),
        effect is Search ==> after.index == 0,
{
    if let Event::Key { key, ctrl } = event {
        let command = binding(before.mode, key, ctrl);
        lemma_input_bindings(before.mode, key, ctrl);
        if scrolls(command) {
            lemma_scrolling_keeps_valid(before, command, catalogue, after, effect);
        } else {
            lemma_command_keeps_valid(before, command, catalogue, after, effect);
        }
    }
}

/// The answers of the program around the picker keep the selection on an entry of the
/// list: matches that come in while the first entry is selected, favourites, the history,
/// an applied theme, and new margins.
pub proof fn law_answers_keep_valid<A>(
    s: StateView<A>,
    list: Seq<ThemeView>,
    catalogue: Seq<ThemeView>,
    history_len: nat,
    name: Seq<char>,
)
    requires
        s.valid(),
    ensures
        s.index == 0 ==> s.listing(list).valid(),
        s.listing(list).at_top().valid(),
        s.recalling(list, catalogue, history_len).valid(),
        s.applied(name).valid(),
        s.refitted().valid(),
{
}

/// No event changes the current theme or the favourites; adjustments change only while
/// they are typed.
pub proof fn law_events_keep_themes<A>(
    before: StateView<A>,
    event: Event,
    catalogue: Seq<ThemeView>,
    after: StateView<A>,
    effect: Effect<Seq<char>>,
)
    requires
        handled(before, event, catalogue, after, effect),
    ensures
        after.current_theme == before.current_theme,
        after.favourites == before.favourites,
        before.mode != Mode::AdjustInput ==> after.adjust == before.adjust && after.adjust_input
            == before.adjust_input,
{
}

/// Where the screen is not drawn again, nothing has changed, not even the rows kept around
/// the selection.
pub proof fn law_no_redraw_no_change<A>(
    before: StateView<A>,
    event: Event,
    catalogue: Seq<ThemeView>,
    after: StateView<A>,
    effect: Effect<Seq<char>>,
)
    requires
        handled(before, event, catalogue, after, effect),
        !effect.redraws(),
    ensures
        after.turned(effect) == before,
{
}

/// Whenever the screen is drawn after a turn, the rows kept around the selection suit it,
/// and the turn has changed nothing else.
pub proof fn law_turns_refit<A>(s: StateView<A>, effect: Effect<Seq<char>>)
    requires
        effect.redraws(),
    ensures
        s.turned(effect).scrolloff == s.turned(effect).fitting_scrolloff(),
        (StateView { scrolloff: s.scrolloff, ..s.turned(effect) }) == s,
{
}

/// What an event asks for outside the picker concerns the state that it leads to: the
/// query typed, the adjustments typed, and the theme selected.
pub proof fn law_effects_concern_state<A>(
    before: StateView<A>,
    event: Event,
    catalogue: Seq<ThemeView>,
    after: StateView<A>,
    effect: Effect<Seq<char>>,
)
    requires
        handled(before, event, catalogue, after, effect),
    ensures
        effect matches Effect::Search(query) ==> query == after.input && query.len() > 0,
        effect matches Effect::Parse(text) ==> text == after.adjust_input && text.len() > 0,
        effect matches Effect::Toggle(name) ==> after.has_selection() && name
            == after.selected().name,
        effect matches Effect::Choose(rank) ==> after.has_selection() && rank
            == after.selected().rank as usize,
        effect is Resolve ==> after.favourites.len() > 0,
{
}

/// The jumps end on the first and on the last entry.
pub proof fn law_jumps<A>(s: StateView<A>, catalogue: Seq<ThemeView>)
    requires
        s.positioned(),
        s.list.len() > 0,
    ensures
        outcome(s, Command::First, catalogue).0.index == 0,
        outcome(s, Command::Last, catalogue).0.index == s.list.len() - 1,
{
    law_scroll_down(s, s.list.len());
}

/// Erasing undoes typing, in the query and in the adjustments.
pub proof fn law_erase_typed<A>(s: StateView<A>, c: char, catalogue: Seq<ThemeView>)
    ensures
        outcome(
            outcome(s, Command::TypeInput(c), catalogue).0,
            Command::EraseInput,
            catalogue,
        ).0.input == s.input,
        outcome(
            outcome(s, Command::TypeAdjust(c), catalogue).0,
            Command::EraseAdjust,
            catalogue,
        ).0.adjust_input == s.adjust_input,
{
    assert(s.input.push(c).drop_last() =~= s.input);
    assert(s.adjust_input.push(c).drop_last() =~= s.adjust_input);
}

/// To look at the help and return changes nothing.
pub proof fn law_help_and_back<A>(s: StateView<A>, catalogue: Seq<ThemeView>)
    requires
        s.mode == Mode::Normal,
    ensures
        outcome(
            outcome(s, Command::ShowHelp, catalogue).0,
            Command::BackToList,
            catalogue,
        ).0 == s,
{
}

/// Reversing the order twice changes nothing.
pub proof fn law_reverse_reverse<A>(s: StateView<A>, catalogue: Seq<ThemeView>)
    ensures
        outcome(
            outcome(s, Command::Reverse, catalogue).0,
            Command::Reverse,
            catalogue,
        ).0 == s,
{
    law_reverse_twice(s.list);
}

/// A theme that was just applied need not be applied again, unless there are adjustments.
pub proof fn law_applied_once<A>(s: StateView<A>, name: Seq<char>)
    ensures
        s.applied(name).must_apply(name) == (s.adjust.len() > 0),
{
}

/// The last of these names, if there is one.
pub open spec fn latest(names: Seq<Seq<char>>) -> Option<Seq<char>> {
    if names.len() > 0 {
        Some(names.last())
    } else {
        None
    }
}

/// A choice calls for the theme to be applied exactly if it is not the current one or there
/// are adjustments. If that works, and only then, the name is added to the history, once,
/// and becomes the current theme; else neither changes, and the picker is not left. So a
/// current theme that is the latest of the history stays so.
pub proof fn law_choice_and_history<A>(
    s: StateView<A>,
    rank: usize,
    name: Seq<char>,
    worked: bool,
    quit_on_select: bool,
    history: Seq<Seq<char>>,
)
    ensures
        ({
            let applies = s.choosing(rank, name) == Effect::Apply(rank, name);
            let (after, kept, effect) = s.chosen(rank, name, worked, quit_on_select, history);
            &&& applies <==> s.current_theme != Some(name) || s.adjust.len() > 0
            &&& applies && worked ==> after == s.applied(name) && kept == history.push(name)
            &&& !(applies && worked) ==> after == s && kept == history
            &&& effect is Quit <==> applies && worked && quit_on_select
            &&& !(effect is Quit) ==> effect == Effect::<Seq<char>>::Redraw
            &&& s.current_theme == latest(history) ==> after.current_theme == latest(kept)
        }),
{
}

} // verus!
