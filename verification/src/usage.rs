//! What comes of each key and each answer, as it can be seen from outside.
use vstd::prelude::*;

use crate::keys::Key;
use crate::list::changes;
use crate::list::found_themes;
use crate::list::is_sorting_of;
use crate::list::keeps_run;
use crate::list::law_first_named;
use crate::list::law_found_themes;
use crate::list::law_nothing_repeated;
use crate::list::law_runs;
use crate::list::law_sorting_keeps_themes;
use crate::list::named_in;
use crate::list::no_repeats;
use crate::list::of_lightness;
use crate::list::of_rank;
use crate::list::without_repeats;
use crate::search::resolved;
use crate::session::Effect;
use crate::session::Event;
use crate::session::Report;
use crate::session::first_list;
use crate::session::handled;
use crate::session::reported;
use crate::state::Mode;
use crate::state::StateView;
use crate::state::law_scroll_down;
use crate::state::law_scroll_up;
use crate::text::law_first_word;
use crate::theme::ThemeEntry;
use crate::theme::ThemeView;

verus! {

/// A key takes the picker from `before` to `after` and calls for `effect`.
pub open spec fn pressed<A>(
    before: StateView<A>,
    key: Key,
    ctrl: bool,
    catalogue: Seq<ThemeView>,
    after: StateView<A>,
    effect: Effect<Seq<char>>,
) -> bool {
    handled(before, Event::Key { key, ctrl }, catalogue, after, effect)
}

/// At most the place of the selection differs, in the list and on the screen.
pub open spec fn moved_only<A>(before: StateView<A>, after: StateView<A>) -> bool {
    after == StateView {
        index: after.index,
        offset: after.offset,
        cursor_row: after.cursor_row,
        ..before
    }
}

/// The first entry is selected and shown first.
pub open spec fn on_first<A>(s: StateView<A>) -> bool {
    s.index == 0 && s.offset == 0 && s.cursor_row == 0
}

/// The up arrow, `k` and `-` select the entry above, the down arrow, `j` and `+` the one
/// below; at the ends of the list the selection stays.
pub proof fn law_keys_step<A>(
    before: StateView<A>,
    key: Key,
    ctrl: bool,
    catalogue: Seq<ThemeView>,
    after: StateView<A>,
    effect: Effect<Seq<char>>,
)
    requires
        before.mode == Mode::Normal,
        pressed(before, key, ctrl, catalogue, after, effect),
    ensures
        key == Key::Up || key == Key::Char('k') || key == Key::Char('-') ==> {
            &&& before.positioned() && before.index > 0 ==> after.index == before.index - 1
            &&& before.positioned() && before.index == 0 ==> after.index == 0
            &&& moved_only(before, after) && effect is Redraw
            &&& after == before.scrolled_up(1)
        },
        key == Key::Down || key == Key::Char('j') || key == Key::Char('+') ==> {
            &&& before.positioned() && before.index + 1 < before.list.len() ==> after.index
                == before.index + 1
            &&& before.positioned() && before.index + 1 >= before.list.len() ==> after.index
                == before.index
            &&& moved_only(before, after) && effect is Redraw
            &&& after == before.scrolled_down(1)
        },
{
    if before.positioned() {
        law_scroll_up(before, 1);
        law_scroll_down(before, 1);
    }
}

/// `g` selects the first entry and `G` the last. Ctrl+u and Ctrl+d go up and down by half as
/// many entries as the screen has rows, but at least one, and no further than the ends.
pub proof fn law_keys_jump<A>(
    before: StateView<A>,
    key: Key,
    ctrl: bool,
    catalogue: Seq<ThemeView>,
    after: StateView<A>,
    effect: Effect<Seq<char>>,
)
    requires
        before.mode == Mode::Normal,
        before.rows >= 0,
        pressed(before, key, ctrl, catalogue, after, effect),
    ensures
        key == Key::Char('g') ==> on_first(after) && moved_only(before, after) && effect is Redraw,
        key == Key::Char('G') ==> {
            &&& before.positioned() && before.list.len() > 0 ==> after.index == before.list.len()
                - 1
            &&& before.positioned() && before.list.len() == 0 ==> after == before
            &&& moved_only(before, after) && effect is Redraw
            &&& after == before.scrolled_down(before.list.len())
        },
        ctrl && (key == Key::Char('u') || key == Key::Char('d')) ==> {
            let half = if before.rows < 4 {
                1
            } else {
                before.rows / 2
            };
            &&& before.positioned() ==> {
                &&& key == Key::Char('u') && before.index >= half ==> after.index == before.index
                    - half
                &&& key == Key::Char('u') && before.index < half ==> after.index == 0
                &&& key == Key::Char('d') && before.index + half < before.list.len()
                    ==> after.index == before.index + half
                &&& key == Key::Char('d') && before.index + half >= before.list.len()
                    && before.list.len() > 0 ==> after.index == before.list.len() - 1
            }
            &&& moved_only(before, after) && effect is Redraw
            &&& key == Key::Char('u') ==> after == before.scrolled_up(half as nat)
            &&& key == Key::Char('d') ==> after == before.scrolled_down(half as nat)
        },
{
    if before.positioned() {
        law_scroll_down(before, before.list.len());
        law_scroll_up(before, before.half_page());
        law_scroll_down(before, before.half_page());
    }
}

/// `d` without Ctrl keeps the dark entries of the list and `l` the light ones, whatever was
/// searched for: what is listed then was in the list and is of that kind, nothing of that
/// kind is lost, and the order stays. Only an empty list stands for the whole catalogue.
pub proof fn law_keys_lightness<A>(
    before: StateView<A>,
    key: Key,
    ctrl: bool,
    catalogue: Seq<ThemeView>,
    after: StateView<A>,
    effect: Effect<Seq<char>>,
    light: bool,
    from: Seq<ThemeView>,
)
    requires
        before.mode == Mode::Normal,
        light && key == Key::Char('l') || !light && key == Key::Char('d') && !ctrl,
        before.list.len() > 0 ==> from == before.list,
        before.list.len() == 0 ==> from == catalogue,
        pressed(before, key, ctrl, catalogue, after, effect),
    ensures
        after.list == from.filter(|t: ThemeView| t.is_light == light),
        forall|i: int|
            0 <= i < after.list.len() ==> (#[trigger] after.list[i]).is_light == light
                && from.contains(after.list[i]),
        forall|i: int|
            0 <= i < from.len() && (#[trigger] from[i]).is_light == light
                ==> after.list.contains(from[i]),
        on_first(after) && effect is Redraw,
        moved_only(StateView { list: after.list, ..before }, after),
{
    let kind = |t: ThemeView| t.is_light == light;
    assert(of_lightness(light) =~= kind);
    assert(after.list == from.filter(kind));
    assert forall|i: int| 0 <= i < after.list.len() implies (#[trigger] after.list[i]).is_light
        == light && from.contains(after.list[i]) by {
        from.lemma_filter_pred(kind, i);
        assert(after.list.contains(after.list[i]));
        from.lemma_filter_contains_rev(kind, after.list[i]);
    }
    assert forall|i: int|
        0 <= i < from.len() && (#[trigger] from[i]).is_light
            == light implies after.list.contains(from[i]) by {
        from.lemma_filter_contains(kind, i);
    }
}

/// `r` turns the list round. The selection stays at its place.
pub proof fn law_key_reverse<A>(
    before: StateView<A>,
    ctrl: bool,
    catalogue: Seq<ThemeView>,
    after: StateView<A>,
    effect: Effect<Seq<char>>,
)
    requires
        before.mode == Mode::Normal,
        pressed(before, Key::Char('r'), ctrl, catalogue, after, effect),
    ensures
        after.list.len() == before.list.len(),
        forall|i: int|
            0 <= i < before.list.len() ==> #[trigger] after.list[i] == before.list[
            before.list.len() - 1 - i],
        after == (StateView { list: after.list, ..before }),
        effect is Redraw,
{
}

/// `S` sorts the list: the entries are the same, by their rank, and entries of one rank stay
/// in their order. `s` only changes the order of the list. The selection stays at its place.
pub proof fn law_keys_order<A>(
    before: StateView<A>,
    key: Key,
    ctrl: bool,
    catalogue: Seq<ThemeView>,
    after: StateView<A>,
    effect: Effect<Seq<char>>,
    rank: int,
)
    requires
        before.mode == Mode::Normal,
        key == Key::Char('s') || key == Key::Char('S'),
        pressed(before, key, ctrl, catalogue, after, effect),
    ensures
        after.list.to_multiset() == before.list.to_multiset(),
        key == Key::Char('S') ==> {
            &&& forall|i: int, j: int|
                0 <= i < j < after.list.len() ==> after.list[i].rank <= after.list[j].rank
            &&& after.list.filter(|t: ThemeView| t.rank == rank) == before.list.filter(
                |t: ThemeView| t.rank == rank,
            )
        },
        after == (StateView { list: after.list, ..before }),
        effect is Redraw,
{
    if key == Key::Char('S') {
        assert(is_sorting_of(after.list, before.list));
        law_sorting_keeps_themes(after.list, before.list);
        assert(of_rank(rank) =~= (|t: ThemeView| t.rank == rank));
        assert(after.list.filter(of_rank(rank)) == before.list.filter(of_rank(rank)));
    }
}

/// `f` makes the first word of the selected name the query: the name up to its first blank,
/// or all of it. The catalogue is searched for it, and the first entry gets selected. Without
/// a selected entry nothing happens.
pub proof fn law_key_family<A>(
    before: StateView<A>,
    ctrl: bool,
    catalogue: Seq<ThemeView>,
    after: StateView<A>,
    effect: Effect<Seq<char>>,
)
    requires
        before.mode == Mode::Normal,
        pressed(before, Key::Char('f'), ctrl, catalogue, after, effect),
    ensures
        0 <= before.index < before.list.len() ==> {
            let name = before.list[before.index].name;
            let query = after.input;
            &&& query.is_prefix_of(name)
            &&& forall|i: int| 0 <= i < query.len() ==> #[trigger] query[i] != ' '
            &&& query.len() < name.len() ==> name[query.len() as int] == ' '
            &&& query.len() > 0 ==> effect == Effect::Search(query) && after.list == before.list
            &&& query.len() == 0 ==> effect is Redraw && after.list == catalogue
            &&& on_first(after)
            &&& moved_only(StateView { input: after.input, list: after.list, ..before }, after)
        },
        !(0 <= before.index < before.list.len()) ==> after == before && (effect is Wait
            || effect is Redraw),
{
    if 0 <= before.index < before.list.len() {
        law_first_word(before.list[before.index].name);
    }
}

/// Enter calls for the selected theme to be loaded, and `m` for its name to be toggled in the
/// favourites. Neither changes the picker, and without a selected entry they call for nothing.
pub proof fn law_keys_selected<A>(
    before: StateView<A>,
    key: Key,
    ctrl: bool,
    catalogue: Seq<ThemeView>,
    after: StateView<A>,
    effect: Effect<Seq<char>>,
)
    requires
        before.mode == Mode::Normal,
        key == Key::Enter || key == Key::Char('m'),
        pressed(before, key, ctrl, catalogue, after, effect),
    ensures
        after == before,
        0 <= before.index < before.list.len() ==> {
            let theme = before.list[before.index];
            &&& key == Key::Enter ==> effect == Effect::<Seq<char>>::Choose(theme.rank as usize)
            &&& key == Key::Char('m') ==> effect == Effect::Toggle(theme.name)
        },
        !(0 <= before.index < before.list.len()) ==> {
            &&& key == Key::Enter ==> effect is Wait
            &&& key == Key::Char('m') ==> effect is Redraw
        },
{
}

/// `F` calls for the favourites to be looked up, if there are any, and `h` for the history.
/// Nothing changes until the answer comes. The space bar lists the whole catalogue, and
/// nothing else changes.
pub proof fn law_keys_list<A>(
    before: StateView<A>,
    key: Key,
    ctrl: bool,
    catalogue: Seq<ThemeView>,
    after: StateView<A>,
    effect: Effect<Seq<char>>,
)
    requires
        before.mode == Mode::Normal,
        pressed(before, key, ctrl, catalogue, after, effect),
    ensures
        key == Key::Char('F') ==> {
            &&& after == before
            &&& before.favourites.len() > 0 ==> effect is Resolve
            &&& before.favourites.len() == 0 ==> effect is Redraw
        },
        key == Key::Char('h') ==> after == before && effect is Recall,
        key == Key::Char(' ') ==> after == (StateView { list: catalogue, ..before })
            && effect is Redraw,
{
}

/// `/`, `:` and `i` start a query: it is empty, so the whole catalogue is listed, from its
/// first entry. `a` starts to type adjustments, from those typed before, and `?` opens the
/// help; neither changes anything else.
pub proof fn law_keys_mode<A>(
    before: StateView<A>,
    key: Key,
    ctrl: bool,
    catalogue: Seq<ThemeView>,
    after: StateView<A>,
    effect: Effect<Seq<char>>,
)
    requires
        before.mode == Mode::Normal,
        pressed(before, key, ctrl, catalogue, after, effect),
    ensures
        key == Key::Char('/') || key == Key::Char(':') || key == Key::Char('i') ==> {
            &&& after.mode == Mode::Input && after.input.len() == 0 && after.list == catalogue
            &&& on_first(after) && effect is Redraw
            &&& moved_only(
                StateView { mode: after.mode, input: after.input, list: after.list, ..before },
                after,
            )
        },
        key == Key::Char('a') ==> after == (StateView { mode: Mode::AdjustInput, ..before })
            && effect is Redraw,
        key == Key::Char('?') ==> after == (StateView { mode: Mode::Help, ..before })
            && effect is Redraw,
{
}

/// While the list has the keyboard, `q` and Ctrl+c leave the picker as it is, and a key
/// without a meaning changes nothing.
pub proof fn law_keys_else<A>(
    before: StateView<A>,
    key: Key,
    ctrl: bool,
    catalogue: Seq<ThemeView>,
    after: StateView<A>,
    effect: Effect<Seq<char>>,
)
    requires
        before.mode == Mode::Normal,
        pressed(before, key, ctrl, catalogue, after, effect),
    ensures
        key == Key::Char('q') || (ctrl && key == Key::Char('c')) ==> after == before
            && effect is Quit,
        key == Key::Esc || key == Key::Backspace || key == Key::Other ==> after == before
            && effect is Redraw,
        key matches Key::Char(c) ==> match c {
            'q' | '/' | ':' | 'i' | 'a' | '?' | 'j' | '+' | 'k' | '-' | 'g' | 'G' => true,
            'd' | 'l' | 's' | 'S' | 'r' | 'f' | 'm' | 'F' | 'h' | ' ' => true,
            'c' | 'u' => ctrl || (after == before && effect is Redraw),
            _ => after == before && effect is Redraw,
        },
{
}

/// While a query is typed, a character goes to its end and the catalogue is searched for the
/// longer query. Backspace takes the last character off, and the catalogue is searched again,
/// or listed if nothing is left. Enter and escape return to the list as it is; no other key
/// does anything.
pub proof fn law_keys_query<A>(
    before: StateView<A>,
    key: Key,
    ctrl: bool,
    catalogue: Seq<ThemeView>,
    after: StateView<A>,
    effect: Effect<Seq<char>>,
)
    requires
        before.mode == Mode::Input,
        !(ctrl && key == Key::Char('c')),
        pressed(before, key, ctrl, catalogue, after, effect),
    ensures
        key matches Key::Char(c) ==> {
            &&& after == StateView { input: before.input.push(c), ..before }
            &&& effect == Effect::Search(before.input.push(c))
        },
        key == Key::Backspace && before.input.len() > 1 ==> {
            let shorter = before.input.take(before.input.len() - 1);
            &&& after == StateView { input: shorter, ..before }
            &&& effect == Effect::Search(shorter)
        },
        key == Key::Backspace && before.input.len() <= 1 ==> {
            &&& after == StateView { input: Seq::empty(), list: catalogue, ..before }
            &&& effect is Redraw
        },
        key == Key::Enter || key == Key::Esc ==> after == (StateView {
            mode: Mode::Normal,
            ..before
        }) && effect is Redraw,
        key == Key::Up || key == Key::Down || key == Key::Other ==> after == before
            && effect is Redraw,
{
    if key == Key::Backspace {
        if before.input.len() > 0 {
            assert(before.input.drop_last() =~= before.input.take(before.input.len() - 1));
        }
        if before.input.len() <= 1 {
            assert(after.input =~= Seq::empty());
        }
    }
}

/// Adjustments are typed as a query is: what is typed is to be parsed, and if nothing is left
/// there are no adjustments. The list and the query stay as they are.
pub proof fn law_keys_adjust<A>(
    before: StateView<A>,
    key: Key,
    ctrl: bool,
    catalogue: Seq<ThemeView>,
    after: StateView<A>,
    effect: Effect<Seq<char>>,
)
    requires
        before.mode == Mode::AdjustInput,
        !(ctrl && key == Key::Char('c')),
        pressed(before, key, ctrl, catalogue, after, effect),
    ensures
        key matches Key::Char(c) ==> {
            &&& after == StateView { adjust_input: before.adjust_input.push(c), ..before }
            &&& effect == Effect::Parse(before.adjust_input.push(c))
        },
        key == Key::Backspace && before.adjust_input.len() > 1 ==> {
            let shorter = before.adjust_input.take(before.adjust_input.len() - 1);
            &&& after == StateView { adjust_input: shorter, ..before }
            &&& effect == Effect::Parse(shorter)
        },
        key == Key::Backspace && before.adjust_input.len() <= 1 ==> {
            &&& after == StateView {
                adjust_input: Seq::empty(),
                adjust: Seq::empty(),
                ..before
            }
            &&& effect is Redraw
        },
        key == Key::Enter || key == Key::Esc ==> after == (StateView {
            mode: Mode::Normal,
            ..before
        }) && effect is Redraw,
        key == Key::Up || key == Key::Down || key == Key::Other ==> after == before
            && effect is Redraw,
{
    if key == Key::Backspace {
        if before.adjust_input.len() > 0 {
            assert(before.adjust_input.drop_last() =~= before.adjust_input.take(
                before.adjust_input.len() - 1,
            ));
        }
        if before.adjust_input.len() <= 1 {
            assert(after.adjust_input =~= Seq::empty());
        }
    }
}

/// Ctrl+c leaves the picker wherever it is pressed, and `q` leaves it from the help. Any other
/// key returns from the help to the list as it was.
pub proof fn law_keys_leave<A>(
    before: StateView<A>,
    key: Key,
    ctrl: bool,
    catalogue: Seq<ThemeView>,
    after: StateView<A>,
    effect: Effect<Seq<char>>,
)
    requires
        pressed(before, key, ctrl, catalogue, after, effect),
    ensures
        ctrl && key == Key::Char('c') ==> after == before && effect is Quit,
        before.mode == Mode::Help && key == Key::Char('q') ==> after == before && effect is Quit,
        before.mode == Mode::Help && key != Key::Char('q') && !(ctrl && key == Key::Char('c'))
            ==> after == (StateView { mode: Mode::Normal, ..before }) && effect is Redraw,
{
}

/// A new size of the terminal is taken note of, and nothing else; other events change nothing.
/// The screen is drawn after either.
pub proof fn law_other_events<A>(
    before: StateView<A>,
    cols: u16,
    rows: u16,
    catalogue: Seq<ThemeView>,
    after: StateView<A>,
    effect: Effect<Seq<char>>,
)
    ensures
        handled(before, Event::Resize(cols, rows), catalogue, after, effect) ==> {
            &&& after == StateView { cols: cols as int, rows: rows as int, ..before }
            &&& effect is Redraw
        },
        handled(before, Event::Other, catalogue, after, effect) ==> after == before
            && effect is Redraw,
{
}

/// The screen is drawn after every turn in which something changed or an answer came.
pub proof fn law_screen_follows<A>(
    before: StateView<A>,
    event: Event,
    catalogue: Seq<ThemeView>,
    after: StateView<A>,
    effect: Effect<Seq<char>>,
)
    requires
        handled(before, event, catalogue, after, effect),
    ensures
        after != before ==> effect.redraws(),
        effect is Redraw || effect is Choose || effect is Search || effect is Parse
            || effect is Toggle || effect is Resolve || effect is Recall ==> effect.redraws(),
        !Effect::<Seq<char>>::Wait.redraws() && !Effect::<Seq<char>>::Quit.redraws(),
{
}

/// The history is listed as it came, the latest theme first: each run of one theme once, at
/// its place among the runs, and without repetitions just the themes found. If none of its
/// themes is known, it is the catalogue that is listed so.
pub proof fn law_history_listed<A>(
    s: StateView<A>,
    results: Seq<Option<ThemeEntry>>,
    catalogue: Seq<ThemeView>,
    from: Seq<ThemeView>,
)
    requires
        results.len() > 0,
        found_themes(results).len() > 0 ==> from == found_themes(results),
        found_themes(results).len() == 0 ==> from == catalogue,
    ensures
        ({
            let after = s.recalling(found_themes(results), catalogue, results.len());
            &&& on_first(after)
            &&& moved_only(StateView { list: after.list, ..s }, after)
            &&& from.len() == 0 ==> after.list.len() == 0
            &&& from.len() > 0 ==> {
                &&& after.list.len() == changes(from, from.len() - 1) + 1
                &&& after.list[0] == from[0]
            }
            &&& forall|i: int| 0 <= i < from.len() ==> #[trigger] keeps_run(after.list, from, i)
            &&& (forall|i: int, j: int|
                0 <= i && j == i + 1 && j < from.len() ==> from[i].rank != from[j].rank)
                ==> after.list == from
        }),
{
    let list = s.recalling(found_themes(results), catalogue, results.len()).list;
    law_runs(from);
    assert(list == without_repeats(from));
    if from.len() > 0 {
        assert(keeps_run(list, from, 0));
        assert(changes(from, 0) == 0);
    }
    if no_repeats(from) {
        law_nothing_repeated(from);
    }
}

/// Without any history nothing changes.
pub proof fn law_no_history<A>(
    s: StateView<A>,
    results: Seq<Option<ThemeEntry>>,
    catalogue: Seq<ThemeView>,
)
    requires
        results.len() == 0,
    ensures
        s.recalling(found_themes(results), catalogue, results.len()) == s,
{
}

/// A history of themes that are all known is found in its order.
pub proof fn law_history_found(results: Seq<Option<ThemeEntry>>)
    requires
        forall|i: int| 0 <= i < results.len() ==> (#[trigger] results[i]) is Some,
    ensures
        found_themes(results).len() == results.len(),
        forall|i: int|
            0 <= i < results.len() ==> #[trigger] found_themes(results)[i] == results[i]->0@,
    decreases results.len(),
{
    if results.len() > 0 {
        let less = results.drop_last();
        assert forall|i: int| 0 <= i < less.len() implies (#[trigger] less[i]) is Some by {
            assert(results[i] is Some);
        }
        law_history_found(less);
        assert(results[results.len() - 1] is Some);
        let entry = results.last()->0;
        law_found_themes(less, seq![Some(entry)], entry);
        assert(results =~= less + seq![Some(entry)]);
    }
}

/// The favourites are listed from their first, and nothing but the list and the place of the
/// selection changes.
pub proof fn law_favourites_listed<A>(
    s: StateView<A>,
    catalogue: Seq<ThemeView>,
    fuzzy: Seq<Option<ThemeEntry>>,
)
    ensures
        ({
            let after = s.favouring(catalogue, fuzzy);
            &&& after.list == resolved(s.favourites, catalogue, fuzzy)
            &&& on_first(after)
            &&& moved_only(StateView { list: after.list, ..s }, after)
        }),
{
}

/// With themes named at the start, exactly the themes of the catalogue with one of those names
/// are listed, in its order. Without, it is what the names of the favourites file stand for,
/// and without such a file the whole catalogue.
pub proof fn law_first_list(
    init_list: Seq<Seq<char>>,
    favourites: Option<Seq<Seq<char>>>,
    catalogue: Seq<ThemeView>,
    fuzzy: Seq<Option<ThemeEntry>>,
)
    ensures
        init_list.len() > 0 ==> {
            let list = first_list(init_list, favourites, catalogue, fuzzy);
            &&& list == catalogue.filter(|t: ThemeView| init_list.contains(t.name))
            &&& forall|i: int|
                0 <= i < list.len() ==> init_list.contains((#[trigger] list[i]).name)
                    && catalogue.contains(list[i])
            &&& forall|i: int|
                0 <= i < catalogue.len() && init_list.contains((#[trigger] catalogue[i]).name)
                    ==> list.contains(catalogue[i])
        },
        init_list.len() == 0 && favourites is Some ==> first_list(
            init_list,
            favourites,
            catalogue,
            fuzzy,
        ) == resolved(favourites->0, catalogue, fuzzy),
        init_list.len() == 0 && favourites is None ==> first_list(
            init_list,
            favourites,
            catalogue,
            fuzzy,
        ) == catalogue,
{
    if init_list.len() > 0 {
        let list = first_list(init_list, favourites, catalogue, fuzzy);
        let asked = |t: ThemeView| init_list.contains(t.name);
        assert(named_in(init_list) =~= asked);
        assert(list == catalogue.filter(asked));
        assert forall|i: int| 0 <= i < list.len() implies init_list.contains(
            (#[trigger] list[i]).name,
        ) && catalogue.contains(list[i]) by {
            catalogue.lemma_filter_pred(asked, i);
            assert(list.contains(list[i]));
            catalogue.lemma_filter_contains_rev(asked, list[i]);
        }
        assert forall|i: int|
            0 <= i < catalogue.len() && init_list.contains(
                (#[trigger] catalogue[i]).name,
            ) implies list.contains(catalogue[i]) by {
            catalogue.lemma_filter_contains(asked, i);
        }
    }
}

/// When the picker is left, the first theme of the catalogue with the name of the current one
/// is printed, if there is one: with its colours if that is asked for, else as JSON if that
/// is, else by its name.
pub proof fn law_reported(
    current_theme: Option<Seq<char>>,
    catalogue: Seq<ThemeView>,
    show: bool,
    json: bool,
    at: int,
)
    ensures
        ({
            let report = reported(current_theme, catalogue, show, json);
            &&& current_theme is None ==> report is None
            &&& current_theme matches Some(name) ==> {
                &&& (forall|j: int| 0 <= j < catalogue.len() ==> (#[trigger] catalogue[j]).name != name)
                    ==> report is None
                &&& 0 <= at < catalogue.len() && catalogue[at].name == name && (forall|j: int|
                    0 <= j < at ==> (#[trigger] catalogue[j]).name != name) ==> {
                    &&& show ==> report == Some((at, Report::Palette))
                    &&& json && !show ==> report == Some((at, Report::Json))
                    &&& !json && !show ==> report == Some((at, Report::Header))
                }
            }
        }),
{
    if let Some(name) = current_theme {
        law_first_named(catalogue, name);
    }
}

} // verus!
