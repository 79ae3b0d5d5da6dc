use recol_interactive::search::{resolve_names, Matches, FUZZY_LIMIT};
use recol_interactive::theme::ThemeEntry;

fn sample(ranks: &[usize]) -> Vec<ThemeEntry> {
    ranks
        .iter()
        .map(|r| ThemeEntry { rank: *r, name: format!("t{}", r), is_light: false })
        .collect()
}

fn ranks(list: &[ThemeEntry]) -> Vec<usize> {
    list.iter().map(|e| e.rank).collect()
}

fn matches_of(a: &[usize], b: &[usize], c: &[usize], d: &[usize], fuzzy: &[usize]) -> Matches {
    Matches {
        starts_with: sample(a),
        starts_with_lower: sample(b),
        contains: sample(c),
        contains_lower: sample(d),
        fuzzy: sample(fuzzy),
    }
}

#[test]
fn better_matches_come_first() {
    let m = matches_of(&[7], &[7, 2], &[5, 7], &[1, 2, 5, 7], &[9]);
    assert!(!m.wants_fuzzy());
    assert_eq!(ranks(&m.rank()), vec![7, 2, 5, 1]);
}

#[test]
fn first_tier_is_taken_as_it_is() {
    let m = matches_of(&[3, 3], &[3], &[], &[4], &[]);
    assert_eq!(ranks(&m.rank()), vec![3, 3, 4]);
}

#[test]
fn fuzzy_only_where_nothing_matches() {
    let m = matches_of(&[], &[], &[], &[], &[4, 2]);
    assert!(m.wants_fuzzy());
    assert_eq!(ranks(&m.rank()), vec![4, 2]);
    let m = matches_of(&[], &[], &[], &[1], &[4, 2]);
    assert!(!m.wants_fuzzy());
    assert_eq!(ranks(&m.rank()), vec![1]);
}

#[test]
fn no_matches_are_none() {
    let m = Matches::none();
    assert!(m.wants_fuzzy());
    assert!(m.rank().is_empty());
}

#[test]
fn ten_fuzzy_results_are_asked_for() {
    assert_eq!(FUZZY_LIMIT, 10);
}

fn named(names: &[&str]) -> Vec<String> {
    names.iter().map(|n| n.to_string()).collect()
}

fn guesses(ranks: &[Option<usize>]) -> Vec<Option<ThemeEntry>> {
    ranks.iter().map(|r| r.map(|r| sample(&[r]).remove(0))).collect()
}

#[test]
fn exact_names_win_over_fuzzy_ones() {
    let found = resolve_names(
        &named(&["t5", "T2", "x", "t0"]),
        &sample(&[0, 2, 5]),
        guesses(&[Some(1), Some(2), None, None]),
    );
    assert_eq!(ranks(&found), vec![5, 2, 0]);
}

#[test]
fn exact_names_all_stand_for_their_themes() {
    let names = named(&["t4", "t1", "t4", "t0"]);
    let found = resolve_names(
        &names,
        &sample(&[0, 1, 2, 3, 4]),
        guesses(&[None, Some(3), Some(2), None]),
    );
    let spelled: Vec<String> = found.iter().map(|t| t.name.clone()).collect();
    assert_eq!(spelled, names);
    assert_eq!(ranks(&found), vec![4, 1, 4, 0]);
}
