use recol_interactive::list::{
    collect_found, copy_list, dedup, find_named, join_new, only, reverse, select_named,
    shuffle_list, sort, take_list,
};
use recol_interactive::theme::ThemeEntry;

fn entry(rank: usize, name: &str, is_light: bool) -> ThemeEntry {
    ThemeEntry { rank, name: name.to_string(), is_light }
}

fn sample(ranks: &[usize]) -> Vec<ThemeEntry> {
    ranks.iter().map(|r| entry(*r, &format!("t{}", r), r % 2 == 1)).collect()
}

fn ranks(list: &[ThemeEntry]) -> Vec<usize> {
    list.iter().map(|e| e.rank).collect()
}

#[test]
fn copies_are_equal() {
    let list = sample(&[3, 1]);
    let copy = copy_list(&list);
    assert_eq!(ranks(&copy), vec![3, 1]);
    assert_eq!(copy[0].name, "t3");
    assert!(copy[0].is_light);
}

#[test]
fn only_light_or_only_dark() {
    assert_eq!(ranks(&only(sample(&[4, 1, 3, 2]), true)), vec![1, 3]);
    assert_eq!(ranks(&only(sample(&[4, 1, 3, 2]), false)), vec![4, 2]);
    assert_eq!(ranks(&only(only(sample(&[4, 1, 3, 2]), false), true)), Vec::<usize>::new());
}

#[test]
fn named_themes_in_catalogue_order() {
    let names = vec!["t9".to_string(), "t1".to_string(), "gone".to_string()];
    assert_eq!(ranks(&select_named(&sample(&[1, 5, 9]), &names)), vec![1, 9]);
}

#[test]
fn first_of_a_name_is_found() {
    let list = vec![entry(0, "a", true), entry(1, "b", true), entry(2, "b", false)];
    assert_eq!(find_named(&list, &"b".to_string()), Some(1));
    assert_eq!(find_named(&list, &"c".to_string()), None);
}

#[test]
fn reverse_and_back() {
    let mut list = sample(&[1, 2, 3]);
    reverse(&mut list);
    assert_eq!(ranks(&list), vec![3, 2, 1]);
    reverse(&mut list);
    assert_eq!(ranks(&list), vec![1, 2, 3]);
}

#[test]
fn taken_list_is_left_empty() {
    let mut list = sample(&[1, 2]);
    assert_eq!(ranks(&take_list(&mut list)), vec![1, 2]);
    assert!(list.is_empty());
}

#[test]
fn sort_is_stable() {
    let mut list = vec![entry(2, "x", true), entry(1, "y", true), entry(2, "z", true)];
    sort(&mut list);
    let names: Vec<&str> = list.iter().map(|e| e.name.as_str()).collect();
    assert_eq!(names, vec!["y", "x", "z"]);
}

#[test]
fn sort_agrees_with_the_standard_library() {
    let mut list = sample(&[5, 3, 8, 1, 9, 2, 0, 7, 4, 6, 3]);
    let mut expected = ranks(&list);
    expected.sort();
    sort(&mut list);
    assert_eq!(ranks(&list), expected);
}

#[test]
fn sort_leaves_an_ordered_list_alone() {
    let mut list = sample(&[1, 4, 9]);
    sort(&mut list);
    assert_eq!(ranks(&list), vec![1, 4, 9]);
}

#[test]
fn dedup_drops_immediate_repetitions_only() {
    let mut list = sample(&[1, 1, 2, 1, 1, 1, 3]);
    dedup(&mut list);
    assert_eq!(ranks(&list), vec![1, 2, 1, 3]);
    let mut empty = sample(&[]);
    dedup(&mut empty);
    assert!(empty.is_empty());
}

#[test]
fn joined_themes_are_new() {
    let mut list = sample(&[1, 1, 2]);
    join_new(&mut list, sample(&[3, 2, 4, 3]));
    assert_eq!(ranks(&list), vec![1, 1, 2, 3, 4]);
}

#[test]
fn found_themes_are_collected() {
    let found = collect_found(vec![None, Some(entry(3, "c", true)), None, Some(entry(1, "a", true))]);
    assert_eq!(ranks(&found), vec![3, 1]);
}

#[test]
fn shuffle_keeps_the_themes() {
    let all: Vec<usize> = (0..64).collect();
    let mut list = sample(&all);
    let mut moved = false;
    let mut tries = 0;
    while !moved && tries < 20 {
        shuffle_list(&mut list);
        moved = ranks(&list) != all;
        tries += 1;
    }
    assert!(moved);
    let mut sorted = ranks(&list);
    sorted.sort();
    assert_eq!(sorted, all);
}
