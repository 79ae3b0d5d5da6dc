use recol_interactive::search::Matches;
use recol_interactive::state::{Mode, State, DEFAULT_SCROLLOFF};
use recol_interactive::theme::ThemeEntry;

fn sample(n: usize) -> Vec<ThemeEntry> {
    (0..n)
        .map(|r| ThemeEntry { rank: r, name: format!("t{}", r), is_light: false })
        .collect()
}

fn picker(rows: u16, n: usize) -> State<u8> {
    State::new((80, rows), sample(n), None, None, vec![], false, false)
}

fn place(s: &State<u8>) -> (usize, usize, u16) {
    (s.list_index, s.list_offset, s.cursor.1)
}

/// One row up at a time.
fn step_up(s: &mut State<u8>) -> bool {
    if s.list_index == 0 {
        return false;
    }
    let can_scroll = s.list_offset > 0;
    let limit = if can_scroll { s.scrolloff } else { 0 };
    if s.cursor.1 as usize > limit {
        s.cursor.1 -= 1;
    } else if can_scroll {
        s.list_offset -= 1;
    } else {
        return false;
    }
    s.list_index -= 1;
    true
}

/// One row down at a time.
fn step_down(s: &mut State<u8>) -> bool {
    if s.list_index + 1 >= s.list.len() {
        return false;
    }
    let visible = s.size.1.saturating_sub(1) as usize;
    let remaining = s.list.len().saturating_sub(s.list_offset);
    let can_scroll = remaining > visible;
    let max_row = visible.saturating_sub(1).min(remaining.saturating_sub(1));
    let limit = if can_scroll { max_row.saturating_sub(s.scrolloff) } else { max_row };
    if (s.cursor.1 as usize) < limit {
        s.cursor.1 += 1;
    } else if can_scroll {
        s.list_offset += 1;
    } else {
        return false;
    }
    s.list_index += 1;
    true
}

fn at(rows: u16, n: usize, place: (usize, usize, u16), scrolloff: usize) -> State<u8> {
    let mut s = picker(rows, n);
    s.list_index = place.0;
    s.list_offset = place.1;
    s.cursor.1 = place.2;
    s.scrolloff = scrolloff;
    s
}

#[test]
fn new_picker_starts_at_the_top() {
    let s = State::new(
        (80, 24),
        sample(3),
        Some("t1".to_string()),
        Some(vec!["t2".to_string()]),
        vec![5u8],
        false,
        true,
    );
    assert_eq!(s.size, (80, 24));
    assert_eq!(place(&s), (0, 0, 0));
    assert_eq!(s.cursor, (0, 0));
    assert_eq!(s.mode, Mode::Help);
    assert_eq!(s.scrolloff, DEFAULT_SCROLLOFF);
    assert_eq!(s.current_theme, Some("t1".to_string()));
    assert_eq!(s.favourites, vec!["t2".to_string()]);
    assert_eq!(s.adjust, vec![5u8]);
    assert_eq!(s.input_buf, "");
    assert_eq!(s.adjust_input_buf, "");
    assert_eq!(s.list.len(), 3);
}

#[test]
fn input_mode_wins_over_help_at_the_start() {
    let s: State<u8> = State::new((1, 1), vec![], None, None, vec![], true, true);
    assert_eq!(s.mode, Mode::Input);
    assert!(s.favourites.is_empty());
}

#[test]
fn scrolling_down_keeps_rows_below() {
    let mut s = picker(21, 100);
    s.scroll_list_down(13);
    assert_eq!(place(&s), (13, 0, 13));
    s.scroll_list_down(1);
    assert_eq!(place(&s), (14, 1, 13));
    s.scroll_list_down(66);
    assert_eq!(place(&s), (80, 67, 13));
    s.scroll_list_down(13);
    assert_eq!(place(&s), (93, 80, 13));
    s.scroll_list_down(1);
    assert_eq!(place(&s), (94, 80, 14));
    s.scroll_list_down(1000);
    assert_eq!(place(&s), (99, 80, 19));
}

#[test]
fn scrolling_up_keeps_rows_above() {
    let mut s = picker(21, 100);
    s.scroll_list_down(99);
    s.scroll_list_up(13);
    assert_eq!(place(&s), (86, 80, 6));
    s.scroll_list_up(1);
    assert_eq!(place(&s), (85, 79, 6));
    s.scroll_list_up(79);
    assert_eq!(place(&s), (6, 0, 6));
    s.scroll_list_up(1);
    assert_eq!(place(&s), (5, 0, 5));
    s.scroll_list_up(usize::MAX);
    assert_eq!(place(&s), (0, 0, 0));
}

#[test]
fn short_lists_do_not_scroll() {
    let mut s = picker(21, 4);
    s.scroll_list_down(10);
    assert_eq!(place(&s), (3, 0, 3));
    s.scroll_list_up(2);
    assert_eq!(place(&s), (1, 0, 1));
}

#[test]
fn empty_list_has_no_place_to_go() {
    let mut s = picker(21, 0);
    s.scroll_list_down(5);
    assert_eq!(place(&s), (0, 0, 0));
    s.scroll_list_up(5);
    assert_eq!(place(&s), (0, 0, 0));
}

#[test]
fn scrolling_is_step_by_step() {
    for rows in [0u16, 1, 2, 5, 9] {
        for len in [0usize, 1, 3, 8, 12] {
            for scrolloff in [0usize, 2, 6] {
                for offset in 0..6usize {
                    for cursor in 0..6u16 {
                        for skew in 0..2usize {
                            let index = offset + cursor as usize + skew;
                            for n in [1usize, 2, 7, 30] {
                                let from = (index, offset, cursor);
                                let mut fast = at(rows, len, from, scrolloff);
                                let mut slow = at(rows, len, from, scrolloff);
                                fast.scroll_list_down(n);
                                let mut left = n;
                                while left > 0 && step_down(&mut slow) {
                                    left -= 1;
                                }
                                assert_eq!(place(&fast), place(&slow));
                                let mut fast = at(rows, len, from, scrolloff);
                                let mut slow = at(rows, len, from, scrolloff);
                                fast.scroll_list_up(n);
                                let mut left = n;
                                while left > 0 && step_up(&mut slow) {
                                    left -= 1;
                                }
                                assert_eq!(place(&fast), place(&slow));
                            }
                        }
                    }
                }
            }
        }
    }
}

#[test]
fn scrolls_add_up() {
    let mut once = picker(12, 40);
    once.scroll_list_down(17);
    let mut twice = picker(12, 40);
    twice.scroll_list_down(9);
    twice.scroll_list_down(8);
    assert_eq!(place(&once), place(&twice));
}

#[test]
fn scrolling_there_and_back() {
    let mut s = picker(12, 40);
    s.scroll_list_down(20);
    s.scroll_list_down(7);
    s.scroll_list_up(7);
    assert_eq!(s.list_index, 20);
}

#[test]
fn selection_stays_in_view_with_its_margins() {
    let mut s = picker(20, 60);
    for step in 0..200usize {
        if step % 7 < 5 {
            s.scroll_list_down(step % 11);
        } else {
            s.scroll_list_up(step % 13);
        }
        let row = s.cursor.1 as usize;
        assert!(row < 19);
        assert!(row >= 6 || s.list_offset == 0);
        assert!(row + 6 < 19 || s.list_offset + 19 >= 60);
    }
}

#[test]
fn margins_fail_on_a_screen_too_low_for_them() {
    let mut s = at(6, 20, (0, 0, 0), 4);
    s.scroll_list_down(1);
    assert_eq!(place(&s), (1, 1, 0));
}

#[test]
fn reset_goes_to_the_top() {
    let mut s = at(10, 30, (12, 8, 4), 3);
    s.cursor.0 = 5;
    s.reset_pos();
    assert_eq!(place(&s), (0, 0, 0));
    assert_eq!(s.cursor.0, 5);
    assert_eq!(s.list.len(), 30);
}

#[test]
fn reset_list_keeps_the_place() {
    let mut s = at(10, 30, (12, 8, 4), 3);
    s.reset_list(&sample(50));
    assert_eq!(s.list.len(), 50);
    assert_eq!(place(&s), (12, 8, 4));
}

#[test]
fn the_same_query_lists_the_same() {
    let found = || Matches { starts_with: sample(2), fuzzy: sample(7), ..Matches::none() };
    let mut a = picker(12, 40);
    let mut b = picker(12, 3);
    for s in [&mut a, &mut b] {
        s.input_buf = "t".to_string();
        s.filter_list_by_input(&sample(9), found());
    }
    let ranks = |s: &State<u8>| s.list.iter().map(|e| e.rank).collect::<Vec<usize>>();
    assert_eq!(ranks(&a).len(), 2);
    assert_eq!(ranks(&a), ranks(&b));
    a.filter_list_by_input(&sample(9), found());
    assert_eq!(ranks(&a), ranks(&b));
}

#[test]
fn empty_query_lists_everything() {
    let mut s = picker(10, 2);
    s.filter_list_by_input(&sample(9), Matches::none());
    assert_eq!(s.list.len(), 9);
}

#[test]
fn query_lists_the_matches() {
    let mut s = picker(10, 2);
    s.input_buf = "t".to_string();
    let mut found = Matches::none();
    found.contains = sample(3);
    s.filter_list_by_input(&sample(9), found);
    assert_eq!(s.list.len(), 3);
    s.filter_list_by_input(&sample(9), Matches::none());
    assert_eq!(s.list.len(), 0);
}

#[test]
fn adjustments_follow_the_text() {
    let mut s = picker(10, 2);
    s.adjust = vec![1];
    s.adjust_input_buf = "x".to_string();
    s.process_adjust_input(None);
    assert_eq!(s.adjust, vec![1]);
    s.process_adjust_input(Some(vec![2, 3]));
    assert_eq!(s.adjust, vec![2, 3]);
    s.adjust_input_buf = String::new();
    s.process_adjust_input(Some(vec![4]));
    assert_eq!(s.adjust, Vec::<u8>::new());
}

#[test]
fn margins_suit_the_height() {
    let mut s = picker(14, 2);
    s.fit_scrolloff();
    assert_eq!(s.scrolloff, 4);
    s.size.1 = 15;
    s.fit_scrolloff();
    assert_eq!(s.scrolloff, 6);
    s.size.1 = 0;
    s.fit_scrolloff();
    assert_eq!(s.scrolloff, 4);
}
