use recol_interactive::keys::{Command, Key};
use recol_interactive::session::{final_report, initial_list, Effect, Event, Report};
use recol_interactive::state::{Mode, State};
use recol_interactive::theme::ThemeEntry;

const NAMES: [&str; 6] = ["Ayu Dark", "Ayu Light", "Gruvbox", "Nord", "Solarized Light", "Zenburn"];

fn entry(rank: usize) -> ThemeEntry {
    ThemeEntry {
        rank,
        name: NAMES[rank].to_string(),
        is_light: NAMES[rank].ends_with("Light"),
    }
}

fn entries(ranks: &[usize]) -> Vec<ThemeEntry> {
    ranks.iter().map(|r| entry(*r)).collect()
}

fn catalogue() -> Vec<ThemeEntry> {
    entries(&[0, 1, 2, 3, 4, 5])
}

fn picker(ranks: &[usize]) -> State<u8> {
    State::new((80, 24), entries(ranks), None, None, vec![], false, false)
}

fn ranks(s: &State<u8>) -> Vec<usize> {
    s.list.iter().map(|e| e.rank).collect()
}

fn press(s: &mut State<u8>, key: Key) -> Effect<String> {
    s.handle_event(Event::Key { key, ctrl: false }, &catalogue())
}

fn type_char(s: &mut State<u8>, c: char) -> Effect<String> {
    press(s, Key::Char(c))
}

#[test]
fn arrows_move_the_selection() {
    let mut s = picker(&[0, 1, 2]);
    assert!(matches!(press(&mut s, Key::Down), Effect::Redraw));
    assert_eq!(s.list_index, 1);
    assert!(matches!(press(&mut s, Key::Up), Effect::Redraw));
    assert_eq!(s.list_index, 0);
}

#[test]
fn jumps_to_both_ends() {
    let mut s = picker(&[0, 1, 2, 3]);
    type_char(&mut s, 'G');
    assert_eq!(s.list_index, 3);
    type_char(&mut s, 'g');
    assert_eq!(s.list_index, 0);
}

#[test]
fn half_pages() {
    let mut s = picker(&[0, 1, 2, 3, 4, 5]);
    s.size = (80, 8);
    s.handle_event(Event::Key { key: Key::Char('d'), ctrl: true }, &catalogue());
    assert_eq!(s.list_index, 4);
    s.size = (80, 1);
    s.handle_event(Event::Key { key: Key::Char('u'), ctrl: true }, &catalogue());
    assert_eq!(s.list_index, 3);
}

#[test]
fn quitting() {
    let mut s = picker(&[0]);
    assert!(matches!(type_char(&mut s, 'q'), Effect::Quit));
    let effect = s.handle_event(Event::Key { key: Key::Char('c'), ctrl: true }, &catalogue());
    assert!(matches!(effect, Effect::Quit));
}

#[test]
fn choosing_the_selected_theme() {
    let mut s = picker(&[4, 2]);
    type_char(&mut s, 'j');
    assert!(matches!(press(&mut s, Key::Enter), Effect::Choose(2)));
    let mut empty = picker(&[]);
    assert!(matches!(press(&mut empty, Key::Enter), Effect::Wait));
}

#[test]
fn applying_is_needed_once() {
    let mut s = picker(&[3]);
    assert!(s.needs_apply("Nord"));
    assert!(matches!(s.theme_applied("Nord".to_string(), false), Effect::Redraw));
    assert_eq!(s.current_theme, Some("Nord".to_string()));
    assert!(!s.needs_apply("Nord"));
    assert!(s.needs_apply("Ayu Dark"));
    s.adjust = vec![1];
    assert!(s.needs_apply("Nord"));
    assert!(matches!(s.theme_applied("Nord".to_string(), true), Effect::Quit));
}

#[test]
fn query_is_typed_and_erased() {
    let mut s = picker(&[2]);
    s.list_index = 0;
    assert!(matches!(type_char(&mut s, '/'), Effect::Redraw));
    assert_eq!(s.mode, Mode::Input);
    assert_eq!(ranks(&s), vec![0, 1, 2, 3, 4, 5]);
    match type_char(&mut s, 'n') {
        Effect::Search(query) => assert_eq!(query, "n"),
        _ => panic!(),
    }
    match type_char(&mut s, 'q') {
        Effect::Search(query) => assert_eq!(query, "nq"),
        _ => panic!(),
    }
    match press(&mut s, Key::Backspace) {
        Effect::Search(query) => assert_eq!(query, "n"),
        _ => panic!(),
    }
    s.list = entries(&[3]);
    assert!(matches!(press(&mut s, Key::Backspace), Effect::Redraw));
    assert_eq!(s.input_buf, "");
    assert_eq!(ranks(&s), vec![0, 1, 2, 3, 4, 5]);
    assert!(matches!(press(&mut s, Key::Backspace), Effect::Redraw));
    assert_eq!(s.input_buf, "");
    assert!(matches!(press(&mut s, Key::Esc), Effect::Redraw));
    assert_eq!(s.mode, Mode::Normal);
}

#[test]
fn starting_a_query_goes_to_the_top_and_forgets_the_old_one() {
    let mut s = picker(&[0, 1, 2, 3]);
    s.input_buf = "old".to_string();
    type_char(&mut s, 'G');
    type_char(&mut s, 'i');
    assert_eq!(s.list_index, 0);
    assert_eq!(s.input_buf, "");
}

#[test]
fn adjustments_are_typed_and_erased() {
    let mut s = picker(&[2]);
    s.adjust = vec![9];
    type_char(&mut s, 'a');
    assert_eq!(s.mode, Mode::AdjustInput);
    match type_char(&mut s, 'x') {
        Effect::Parse(text) => assert_eq!(text, "x"),
        _ => panic!(),
    }
    assert_eq!(s.adjust, vec![9]);
    assert!(matches!(press(&mut s, Key::Backspace), Effect::Redraw));
    assert_eq!(s.adjust, Vec::<u8>::new());
    assert!(matches!(press(&mut s, Key::Enter), Effect::Redraw));
    assert_eq!(s.mode, Mode::Normal);
}

#[test]
fn help_and_back() {
    let mut s = picker(&[2, 3]);
    type_char(&mut s, 'j');
    type_char(&mut s, '?');
    assert_eq!(s.mode, Mode::Help);
    press(&mut s, Key::Up);
    assert_eq!(s.mode, Mode::Normal);
    assert_eq!(s.list_index, 1);
    type_char(&mut s, '?');
    type_char(&mut s, 'x');
    assert_eq!(s.mode, Mode::Normal);
    assert_eq!(s.list_index, 1);
    type_char(&mut s, '?');
    assert!(matches!(type_char(&mut s, 'q'), Effect::Quit));
}

#[test]
fn dark_and_light_only() {
    let mut s = picker(&[5, 4, 1, 0]);
    type_char(&mut s, 'G');
    type_char(&mut s, 'l');
    assert_eq!(ranks(&s), vec![4, 1]);
    assert_eq!(s.list_index, 0);
    type_char(&mut s, 'd');
    assert_eq!(ranks(&s), Vec::<usize>::new());
    type_char(&mut s, 'd');
    assert_eq!(ranks(&s), vec![0, 2, 3, 5]);
}

#[test]
fn orders_of_the_list() {
    let mut s = picker(&[5, 1, 3]);
    type_char(&mut s, 'r');
    assert_eq!(ranks(&s), vec![3, 1, 5]);
    type_char(&mut s, 'r');
    assert_eq!(ranks(&s), vec![5, 1, 3]);
    type_char(&mut s, 'S');
    assert_eq!(ranks(&s), vec![1, 3, 5]);
    type_char(&mut s, 's');
    let mut sorted = ranks(&s);
    sorted.sort();
    assert_eq!(sorted, vec![1, 3, 5]);
}

#[test]
fn family_of_the_selected_theme() {
    let mut s = picker(&[5, 1]);
    type_char(&mut s, 'j');
    match type_char(&mut s, 'f') {
        Effect::Search(query) => assert_eq!(query, "Ayu"),
        _ => panic!(),
    }
    assert_eq!(s.input_buf, "Ayu");
    assert_eq!(s.list_index, 0);
    assert_eq!(s.mode, Mode::Normal);
    let mut empty = picker(&[]);
    assert!(matches!(type_char(&mut empty, 'f'), Effect::Wait));
    let mut off = picker(&[1]);
    off.list_index = 7;
    assert!(matches!(type_char(&mut off, 'f'), Effect::Redraw));
}

#[test]
fn family_of_a_name_that_starts_with_a_blank() {
    let mut s = picker(&[1]);
    s.list[0].name = " odd".to_string();
    assert!(matches!(type_char(&mut s, 'f'), Effect::Redraw));
    assert_eq!(ranks(&s), vec![0, 1, 2, 3, 4, 5]);
}

#[test]
fn toggling_the_selected_favourite() {
    let mut s = picker(&[3]);
    match type_char(&mut s, 'm') {
        Effect::Toggle(name) => assert_eq!(name, "Nord"),
        _ => panic!(),
    }
    let mut empty = picker(&[]);
    assert!(matches!(type_char(&mut empty, 'm'), Effect::Redraw));
}

#[test]
fn applying_can_fail() {
    let mut s = picker(&[3]);
    s.current_theme = Some("Gruvbox".to_string());
    assert!(matches!(s.apply_ended("Nord".to_string(), false, true), Effect::Redraw));
    assert_eq!(s.current_theme, Some("Gruvbox".to_string()));
    assert!(matches!(s.apply_ended("Nord".to_string(), true, false), Effect::Redraw));
    assert_eq!(s.current_theme, Some("Nord".to_string()));
    assert!(matches!(s.apply_ended("Zenburn".to_string(), true, true), Effect::Quit));
    assert_eq!(s.current_theme, Some("Zenburn".to_string()));
}

#[test]
fn a_chosen_theme_is_applied_if_needed() {
    let mut s = picker(&[3]);
    match s.theme_chosen(3, "Nord".to_string()) {
        Effect::Apply(rank, name) => assert_eq!((rank, name), (3, "Nord".to_string())),
        _ => panic!(),
    }
    s.current_theme = Some("Nord".to_string());
    assert!(matches!(s.theme_chosen(3, "Nord".to_string()), Effect::Redraw));
    s.adjust = vec![1];
    assert!(matches!(s.theme_chosen(3, "Nord".to_string()), Effect::Apply(3, _)));
}

#[test]
fn only_applied_themes_are_remembered() {
    let mut s = picker(&[3]);
    let mut history: Vec<String> = vec![];
    for (rank, worked, quit) in [
        (2, true, false),
        (2, true, true),
        (3, false, true),
        (5, true, true),
        (2, true, false),
    ] {
        let mut last = s.theme_chosen(rank, NAMES[rank].to_string());
        if let Effect::Apply(_, name) = last {
            let (remember, next) = s.choice_ended(name.clone(), worked, quit);
            assert_eq!(remember, worked);
            assert_eq!(matches!(next, Effect::Quit), worked && quit);
            if remember {
                history.push(name);
            }
            last = next;
        }
        assert!(matches!(last, Effect::Redraw | Effect::Quit));
        assert_eq!(s.current_theme.as_ref(), history.last());
    }
    assert_eq!(history, vec!["Gruvbox", "Zenburn", "Gruvbox"]);
}

#[test]
fn margins_are_refitted_whenever_the_screen_is_drawn() {
    let mut s = picker(&[3]);
    let wide = s.scrolloff;
    s.size = (80, 8);
    assert!(!s.turn_ended(&Effect::Wait));
    assert!(!s.turn_ended(&Effect::Quit));
    assert_eq!(s.scrolloff, wide);
    assert!(s.turn_ended(&Effect::Redraw));
    let narrow = s.scrolloff;
    assert!(narrow < wide);
    for effect in [
        Effect::Choose(0),
        Effect::Apply(0, "Nord".to_string()),
        Effect::Search("a".to_string()),
        Effect::Parse("a".to_string()),
        Effect::Toggle("a".to_string()),
        Effect::Resolve,
        Effect::Recall,
    ] {
        s.scrolloff = wide;
        assert!(s.turn_ended(&effect));
        assert_eq!(s.scrolloff, narrow);
    }
}

#[test]
fn listing_the_favourites() {
    let mut s = picker(&[0, 1, 2]);
    assert!(matches!(type_char(&mut s, 'F'), Effect::Redraw));
    s.favourites = vec!["Zenburn".to_string(), "nord".to_string(), "none".to_string()];
    type_char(&mut s, 'G');
    assert!(matches!(type_char(&mut s, 'F'), Effect::Resolve));
    s.show_favourites(vec![Some(entry(0)), Some(entry(3)), None], &catalogue());
    assert_eq!(ranks(&s), vec![5, 3]);
    assert_eq!(s.list_index, 0);
}

#[test]
fn listing_the_history() {
    let mut s = picker(&[0, 1, 2]);
    type_char(&mut s, 'j');
    assert!(matches!(type_char(&mut s, 'h'), Effect::Recall));
    s.show_history(vec![], &catalogue());
    assert_eq!(ranks(&s), vec![0, 1, 2]);
    assert_eq!(s.list_index, 1);
    s.show_history(
        vec![Some(entry(5)), Some(entry(5)), None, Some(entry(5)), Some(entry(2)), Some(entry(5))],
        &catalogue(),
    );
    assert_eq!(ranks(&s), vec![5, 2, 5]);
    assert_eq!(s.list_index, 0);
    s.show_history(vec![None], &catalogue());
    assert_eq!(ranks(&s), vec![0, 1, 2, 3, 4, 5]);
}

#[test]
fn listing_all_keeps_the_selection() {
    let mut s = picker(&[4, 2]);
    type_char(&mut s, 'j');
    type_char(&mut s, ' ');
    assert_eq!(ranks(&s), vec![0, 1, 2, 3, 4, 5]);
    assert_eq!(s.list_index, 1);
}

#[test]
fn listing_all_can_leave_the_selection_behind() {
    let mut s = picker(&[0, 0, 0, 0, 0, 0, 0, 0]);
    type_char(&mut s, 'G');
    type_char(&mut s, ' ');
    assert_eq!(s.list_index, 7);
    assert_eq!(s.list.len(), 6);
}

#[test]
fn resizing() {
    let mut s = picker(&[4, 2]);
    assert!(matches!(s.handle_event(Event::Resize(30, 9), &catalogue()), Effect::Redraw));
    assert_eq!(s.size, (30, 9));
    assert!(matches!(s.handle_event(Event::Other, &catalogue()), Effect::Redraw));
}

#[test]
fn keys_without_a_meaning_change_nothing() {
    let mut s = picker(&[4, 2]);
    assert!(matches!(s.perform(Command::Nothing, &catalogue()), Effect::Redraw));
    assert!(matches!(type_char(&mut s, 'x'), Effect::Redraw));
    assert_eq!(ranks(&s), vec![4, 2]);
    assert_eq!(s.mode, Mode::Normal);
}

#[test]
fn selection_stays_on_an_entry() {
    let keys = ['j', 'G', 'k', 'd', 'j', ' ', 'r', 'l', 's', 'G', 'S', '/', 'n'];
    let mut s = picker(&[0, 1, 2, 3, 4, 5]);
    s.size = (40, 9);
    for round in 0..5usize {
        for i in 0..keys.len() {
            let c = keys[(i * (round + 1)) % keys.len()];
            if s.mode == Mode::Input {
                press(&mut s, Key::Esc);
            }
            type_char(&mut s, c);
            assert_eq!(s.list_index, s.list_offset + s.cursor.1 as usize);
            assert!(s.list_index < s.list.len() || s.list_index == 0);
        }
    }
}

#[test]
fn themes_named_at_the_start() {
    let named = vec!["Nord".to_string(), "Ayu Dark".to_string()];
    let list = initial_list(&named, &Some(vec!["Nord".to_string()]), &catalogue(), vec![]);
    let found: Vec<usize> = list.iter().map(|e| e.rank).collect();
    assert_eq!(found, vec![0, 3]);
}

#[test]
fn favourites_or_everything_at_the_start() {
    let names = Some(vec!["Solarized Light".to_string()]);
    let list = initial_list(&vec![], &names, &catalogue(), vec![Some(entry(0))]);
    assert_eq!(list.len(), 1);
    assert_eq!(list[0].rank, 4);
    assert_eq!(initial_list(&vec![], &None, &catalogue(), vec![]).len(), 6);
    assert_eq!(initial_list(&vec![], &Some(vec![]), &catalogue(), vec![]).len(), 0);
}

#[test]
fn report_at_the_end() {
    let nord = Some("Nord".to_string());
    assert_eq!(final_report(&nord, &catalogue(), true, true), Some((3, Report::Palette)));
    assert_eq!(final_report(&nord, &catalogue(), false, true), Some((3, Report::Json)));
    assert_eq!(final_report(&nord, &catalogue(), false, false), Some((3, Report::Header)));
    assert_eq!(final_report(&Some("gone".to_string()), &catalogue(), true, false), None);
    assert_eq!(final_report(&None, &catalogue(), true, false), None);
}
