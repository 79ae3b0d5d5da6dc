use recol_interactive::preview::gen_preview;
use recol_interactive::screen::{Attribute, Color, Op};
use recol_interactive::state::{Mode, State};
use recol_interactive::theme::{DiffColors, Pair, Palette, Rgb, Shades, Theme, ThemeEntry};

const C: Rgb = Rgb { r: 1, g: 2, b: 3 };
const BACK: Rgb = Rgb { r: 40, g: 50, b: 60 };

fn shades() -> Shades {
    Shades {
        black: C,
        red: C,
        green: C,
        yellow: C,
        blue: C,
        magenta: C,
        cyan: C,
        white: C,
        orange: C,
        pink: C,
    }
}

fn theme() -> Theme {
    Theme {
        name: "Nord".to_string(),
        background: BACK,
        colors: Palette {
            comment: C,
            base: shades(),
            bright: shades(),
            dim: shades(),
            fg: [C, C, C, C],
            bg: [C, C, C, C, C],
            cursor: Pair { bg: C, fg: C },
            selection: Pair { bg: C, fg: C },
            diff: DiffColors { added: C, deleted: C, changed: C, text: C },
        },
    }
}

fn picker(cols: u16, rows: u16, names: &[&str]) -> State<u8> {
    let list = names
        .iter()
        .enumerate()
        .map(|(i, n)| ThemeEntry { rank: i, name: n.to_string(), is_light: i % 2 == 1 })
        .collect();
    State::new((cols, rows), list, None, None, vec![], false, false)
}

/// The orders as lines of text.
fn spelled(ops: &[Op<String>]) -> Vec<String> {
    ops.iter().map(|op| format!("{:?}", op)).collect()
}

fn printed(ops: &[Op<String>]) -> Vec<String> {
    ops.iter()
        .filter_map(|op| match op {
            Op::Print(text) => Some(text.clone()),
            _ => None,
        })
        .collect()
}

fn index_of(ops: &[Op<String>], text: &str) -> usize {
    spelled(ops).iter().position(|o| o == &format!("Print({:?})", text)).unwrap()
}

#[test]
fn too_small_a_window() {
    let mut s = picker(60, 6, &["Nord"]);
    assert!(!s.previews());
    assert_eq!(
        spelled(&s.draw_screen(None)),
        vec![
            "Clear",
            "MoveTo(0, 0)",
            "MoveTo(13, 3)",
            "Foreground(Red)",
            "Print(\"Window too small (60x6), need 15x7\")",
            "ResetColor",
        ]
    );
    s.size = (14, 7);
    assert_eq!(
        spelled(&s.draw_screen(None))[2..5],
        [
            "MoveTo(0, 3)".to_string(),
            "Foreground(Red)".to_string(),
            "Print(\"Window too small (14x7), need 15x7\")".to_string(),
        ]
    );
    s.size = (15, 7);
    assert!(s.previews());
}

#[test]
fn the_theme_previewed_is_the_selected_one() {
    let mut s = picker(30, 8, &["Ayu", "Nord", "Zenburn"]);
    s.list.reverse();
    assert_eq!(s.previewed(), Some(2));
    s.list_index = 2;
    assert_eq!(s.previewed(), Some(0));
    s.list_index = 3;
    assert!(s.previews());
    assert_eq!(s.previewed(), None);
    s.list_index = 0;
    s.mode = Mode::Help;
    assert_eq!(s.previewed(), None);
    s.mode = Mode::Normal;
    s.size = (14, 8);
    assert_eq!(s.previewed(), None);
    assert_eq!(picker(30, 8, &[]).previewed(), None);
}

#[test]
fn help_on_a_tall_screen() {
    let mut s = picker(40, 40, &["Nord"]);
    s.mode = Mode::Help;
    assert!(!s.previews());
    let ops = s.draw_screen(None);
    let lines = spelled(&ops);
    assert_eq!(
        lines[0..11],
        [
            "Clear",
            "MoveTo(0, 0)",
            "MoveTo(0, 0)",
            "Attribute(Bold)",
            "Foreground(Black)",
            "Background(Cyan)",
            "Print(\"           \")",
            "Print(\" RECOL —  HELP \")",
            "Print(\"            \")",
            "ResetColor",
            "Attribute(Reset)",
        ]
    );
    assert_eq!(
        lines[11..22],
        [
            "MoveTo(2, 2)",
            "Attribute(Bold)",
            "Foreground(Yellow)",
            "Print(\"NAVIGATION\")",
            "ResetColor",
            "Attribute(Reset)",
            "MoveTo(4, 3)",
            "Foreground(Green)",
            "Print(\"↑ / k / -     \")",
            "ResetColor",
            "Print(\"Move selection up\")",
        ]
    );
    let last = index_of(&ops, "--quit-on-select");
    assert_eq!(lines[last - 2], "MoveTo(4, 28)");
    assert_eq!(lines[last + 2], "Print(\"\")");
    assert_eq!(
        lines[lines.len() - 4..],
        [
            "MoveTo(0, 40)",
            "Foreground(DarkGrey)",
            "Print(\"Press any key to return · q to quit\")",
            "ResetColor",
        ]
    );
}

#[test]
fn help_on_a_low_screen() {
    let mut s = picker(20, 10, &["Nord"]);
    s.mode = Mode::Help;
    let ops = s.draw_screen(None);
    let texts = printed(&ops);
    assert_eq!(
        texts,
        vec![
            " ",
            " RECOL —  HELP ",
            "  ",
            "NAVIGATION",
            "↑ / k / -     ",
            "Move selection up",
            "↓ / j / +     ",
            "Move selection down",
            "g / G         ",
            "Jump to first / last",
            "Ctrl+ u / d   ",
            "Half page up / down",
            "INPUT & FILTER",
            "Press any key to return · q to quit",
        ]
    );
    let lines = spelled(&ops);
    let heading = index_of(&ops, "INPUT & FILTER");
    assert_eq!(lines[heading - 3], "MoveTo(2, 8)");
}

#[test]
fn list_without_themes() {
    let s = picker(30, 8, &[]);
    assert!(!s.previews());
    assert_eq!(
        spelled(&s.draw_screen(None)),
        vec![
            "Clear",
            "MoveTo(0, 0)",
            "MoveTo(10, 8)",
            "Print(\"0/0\")",
            "MoveTo(27, 8)",
            "Foreground(DarkGrey)",
            "Print(\"?\")",
            "ResetColor",
            "MoveTo(0, 0)",
            "HideCursor",
        ]
    );
}

#[test]
fn list_with_its_marks() {
    let mut s = picker(20, 8, &["Ayu", "Nord", "A name too long to fit"]);
    s.list_index = 1;
    s.cursor.1 = 1;
    s.current_theme = Some("Ayu".to_string());
    s.favourites = vec!["Nord".to_string()];
    let ops = s.draw_screen(Some(&theme()));
    let lines = spelled(&ops);
    let first = index_of(&ops, " ⏾  Ayu           ");
    assert_eq!(
        lines[first - 1..first + 13],
        [
            "Foreground(Cyan)",
            "Print(\" ⏾  Ayu           \")",
            "MoveDown(1)",
            "MoveToColumn(0)",
            "ResetColor",
            "Attribute(Reverse)",
            "Print(\"★☀  Nord          \")",
            "Attribute(NoReverse)",
            "MoveDown(1)",
            "MoveToColumn(0)",
            "ResetColor",
            "Print(\" ⏾  A name too lon\")",
            "MoveDown(1)",
            "MoveToColumn(0)",
        ]
    );
}

#[test]
fn list_shows_what_fits_from_its_offset() {
    let mut s = picker(20, 8, &["a", "b", "c", "d", "e", "f", "g", "h", "i", "j"]);
    s.list_offset = 2;
    s.list_index = 2;
    let rows: Vec<String> = printed(&s.draw_screen(Some(&theme())))
        .iter()
        .filter(|t| t.contains('⏾') || t.contains('☀'))
        .map(|t| t.trim().to_string())
        .collect();
    assert_eq!(rows, vec!["⏾  c", "☀  d", "⏾  e", "☀  f", "⏾  g", "☀  h", "⏾  i"]);
    s.list_offset = 8;
    s.list_index = 8;
    let ops = s.draw_screen(Some(&theme()));
    let shown = printed(&ops).iter().filter(|t| t.contains('⏾') || t.contains('☀')).count();
    assert_eq!(shown, 2);
    let highlighted = ops
        .iter()
        .filter(|op| matches!(op, Op::Attribute(Attribute::Reverse)))
        .count();
    assert_eq!(highlighted, 1);
}

#[test]
fn preview_beside_the_list() {
    let s = picker(60, 30, &["Nord"]);
    let ops = s.draw_screen(Some(&theme()));
    let lines = spelled(&ops);
    let preview = gen_preview(&theme(), 35);
    assert_eq!(lines[2], "MoveTo(25, 0)");
    assert!(matches!(ops[3], Op::Background(Color::Exact(BACK))));
    assert_eq!(lines[4], format!("Print({:?})", preview[0]));
    assert_eq!(lines[5], "MoveTo(25, 1)");
    let row = 2 + 24 * 3;
    assert_eq!(
        lines[row..row + 4],
        [
            "MoveTo(25, 24)".to_string(),
            "Background(Exact(Rgb { r: 40, g: 50, b: 60 }))".to_string(),
            "Print(\"\")".to_string(),
            format!("Print({:?})", " ".repeat(35)),
        ]
    );
    let end = row + 5 * 4;
    assert_eq!(lines[end..end + 2], ["MoveTo(0, 0)", "ResetColor"]);
    assert_eq!(printed(&ops[end..])[0].chars().count(), 24);
}

#[test]
fn narrow_screen_leaves_one_column_to_the_preview() {
    let s = picker(33, 9, &["Nord"]);
    let ops = s.draw_screen(Some(&theme()));
    let lines = spelled(&ops);
    assert_eq!(lines[2], "MoveTo(32, 0)");
    assert_eq!(lines[4], format!("Print({:?})", gen_preview(&theme(), 1)[0]));
    let s = picker(34, 9, &["Nord"]);
    let lines = spelled(&s.draw_screen(Some(&theme())));
    assert_eq!(lines[2], "MoveTo(12, 0)");
}

#[test]
fn query_on_the_bottom_line() {
    let mut s = picker(30, 8, &[]);
    s.mode = Mode::Input;
    s.input_buf = "no".to_string();
    assert_eq!(
        spelled(&s.draw_screen(None))[2..],
        ["MoveTo(0, 8)", "ShowCursor", "Print(\":no\")"]
    );
    s.mode = Mode::Normal;
    let lines = spelled(&s.draw_screen(None));
    assert_eq!(lines[4], "Print(\":no\")");
    assert_eq!(lines[6], "Print(\"0/0\")");
    s.mode = Mode::Input;
    s.input_buf = String::new();
    assert_eq!(spelled(&s.draw_screen(None))[4], "Print(\":\")");
}

#[test]
fn adjustments_on_the_bottom_line() {
    let mut s = picker(30, 8, &[]);
    s.mode = Mode::AdjustInput;
    s.adjust_input_buf = "hue".to_string();
    assert_eq!(
        spelled(&s.draw_screen(None))[2..],
        ["MoveTo(0, 8)", "ShowCursor", "Print(\"Adjust:hue\")"]
    );
}

#[test]
fn status_only_where_there_is_room() {
    let mut s = picker(15, 8, &[]);
    s.list_index = 12345;
    let lines = spelled(&s.draw_screen(None));
    assert_eq!(lines[2], "MoveTo(12, 8)");
    s.list_index = 1234;
    let lines = spelled(&s.draw_screen(None));
    assert_eq!(lines[2], "MoveTo(0, 8)");
    assert_eq!(lines[3], "Print(\"1234/0\")");
}

#[test]
fn cursor_stands_on_the_selection() {
    let mut s = picker(20, 8, &["a", "b", "c"]);
    s.scroll_list_down(2);
    let lines = spelled(&s.draw_screen(Some(&theme())));
    assert_eq!(lines[lines.len() - 2..], ["MoveTo(0, 2)", "HideCursor"]);
}
