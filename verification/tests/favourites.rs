use recol_interactive::favourites::{
    favourite_names, favourites_file, lists, planned_toggle, toggle_favourite,
};

fn owned(names: &[&str]) -> Vec<String> {
    names.iter().map(|n| n.to_string()).collect()
}

#[test]
fn names_come_in_file_order() {
    assert_eq!(favourite_names("Nord\nAyu Dark\n"), owned(&["Nord", "Ayu Dark"]));
}

#[test]
fn names_are_trimmed_and_blank_lines_passed_over() {
    assert_eq!(
        favourite_names("  Nord \r\n\r\n\t\n\nAyu\u{a0}"),
        owned(&["Nord", "Ayu"])
    );
    assert_eq!(favourite_names(""), owned(&[]));
    assert_eq!(favourite_names("\n"), owned(&[]));
}

#[test]
fn names_match_the_lines_of_the_standard_library() {
    let content = "a\r\nb\rc\n d \n\r\n\re\r\n";
    let expected: Vec<String> = content
        .lines()
        .map(str::trim)
        .filter(|l| !l.is_empty())
        .map(str::to_string)
        .collect();
    assert_eq!(favourite_names(content), expected);
}

#[test]
fn file_has_one_name_a_line() {
    assert_eq!(favourites_file(&owned(&["Nord", "Ayu"])), "Nord\nAyu\n");
    assert_eq!(favourites_file(&owned(&["Nord"])), "Nord\n");
    assert_eq!(favourites_file(&owned(&[])), "\n");
}

#[test]
fn file_gives_back_what_was_written() {
    let names = owned(&["Nord", "Ayu Dark", "Nord"]);
    assert_eq!(favourite_names(&favourites_file(&names)), names);
    assert_eq!(favourite_names(&favourites_file(&owned(&[]))), owned(&[]));
}

/// Toggles `name` as the program does, with a file that can be written or not.
fn toggle(names: &mut Vec<String>, name: &str, written: bool) -> Option<String> {
    let (planned, content) = planned_toggle(names, name, true).unwrap();
    toggle_favourite(names, name, written);
    if written {
        assert_eq!(*names, planned);
        Some(content)
    } else {
        None
    }
}

#[test]
fn toggling_adds_at_the_end() {
    let mut names = owned(&["Nord"]);
    assert_eq!(toggle(&mut names, "Ayu", true), Some("Nord\nAyu\n".to_string()));
    assert_eq!(names, owned(&["Nord", "Ayu"]));
}

#[test]
fn toggling_takes_the_first_occurrence_out() {
    let mut names = owned(&["Ayu", "Nord", "Ayu"]);
    assert_eq!(toggle(&mut names, "Ayu", true), Some("Nord\nAyu\n".to_string()));
    assert_eq!(names, owned(&["Nord", "Ayu"]));
}

#[test]
fn toggling_the_last_favourite_leaves_an_empty_line() {
    let mut names = owned(&["Ayu"]);
    assert_eq!(toggle(&mut names, "Ayu", true), Some("\n".to_string()));
    assert_eq!(names, owned(&[]));
}

#[test]
fn toggling_twice_changes_nothing() {
    let mut names = owned(&["Nord", "Zenburn"]);
    toggle(&mut names, "Ayu", true);
    toggle(&mut names, "Ayu", true);
    assert_eq!(names, owned(&["Nord", "Zenburn"]));
}

#[test]
fn planning_a_toggle_changes_nothing() {
    let names = owned(&["Nord"]);
    assert_eq!(
        planned_toggle(&names, "Ayu", true),
        Some((owned(&["Nord", "Ayu"]), "Nord\nAyu\n".to_string()))
    );
    assert_eq!(planned_toggle(&names, "Nord", true), Some((owned(&[]), "\n".to_string())));
    assert_eq!(names, owned(&["Nord"]));
}

#[test]
fn toggling_without_a_file_does_nothing() {
    let names = owned(&["Nord"]);
    assert_eq!(planned_toggle(&names, "Nord", false), None);
    assert_eq!(names, owned(&["Nord"]));
}

#[test]
fn favourites_stay_what_the_file_holds() {
    let mut names = owned(&["Nord", "Ayu"]);
    let mut file = "Nord\n\n Ayu \n".to_string();
    for (name, written) in [("Zenburn", false), ("Nord", true), ("Ayu", false), ("Nord", true)] {
        if let Some(content) = toggle(&mut names, name, written) {
            file = content;
        }
        assert_eq!(favourite_names(&file), names);
    }
    assert_eq!(names, owned(&["Ayu", "Nord"]));
}

#[test]
fn toggling_leaves_other_names_alone() {
    let mut names = owned(&["Nord", "Ayu", "Zenburn"]);
    toggle(&mut names, "Ayu", true);
    assert!(lists(&names, "Nord"));
    assert!(!lists(&names, "Ayu"));
    assert!(lists(&names, "Zenburn"));
}
