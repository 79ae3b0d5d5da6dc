use recol_interactive::preview::{color_text, gen_preview, PartBuf};
use recol_interactive::theme::{DiffColors, Pair, Palette, Rgb, Shades, Theme};

const RED: Rgb = Rgb { r: 255, g: 0, b: 10 };
const GREY: Rgb = Rgb { r: 7, g: 7, b: 7 };

fn shades(seed: u8) -> Shades {
    let c = |n: u8| Rgb { r: seed, g: n, b: 0 };
    Shades {
        black: c(0),
        red: c(1),
        green: c(2),
        yellow: c(3),
        blue: c(4),
        magenta: c(5),
        cyan: c(6),
        white: c(7),
        orange: c(8),
        pink: c(9),
    }
}

fn theme() -> Theme {
    let c = |n: u8| Rgb { r: 9, g: 9, b: n };
    Theme {
        name: "Nord".to_string(),
        background: c(0),
        colors: Palette {
            comment: c(1),
            base: shades(1),
            bright: shades(2),
            dim: shades(3),
            fg: [c(10), c(11), c(12), c(13)],
            bg: [c(20), c(21), c(22), c(23), c(24)],
            cursor: Pair { bg: c(30), fg: c(31) },
            selection: Pair { bg: c(40), fg: c(41) },
            diff: DiffColors { added: c(50), deleted: c(51), changed: c(52), text: c(53) },
        },
    }
}

/// What is left of a line without its escape sequences.
fn shown(line: &str) -> String {
    let mut out = String::new();
    let mut escaped = false;
    for c in line.chars() {
        if c == '\x1b' {
            escaped = true;
        } else if escaped {
            escaped = c != 'm';
        } else {
            out.push(c);
        }
    }
    out
}

#[test]
fn text_in_colour() {
    assert_eq!(color_text("hi", RED), "\x1b[38;2;255;0;10mhi");
    assert_eq!(color_text("", GREY), "\x1b[38;2;7;7;7m");
}

#[test]
fn short_lines_are_filled_up() {
    let buf = PartBuf::new().with("ab", RED).with("ä", GREY);
    assert_eq!(buf.assemble(5), "\x1b[38;2;255;0;10mab\x1b[38;2;7;7;7mä  ");
}

#[test]
fn lines_that_fit_are_kept() {
    let buf = PartBuf::new().with("ab", RED).with("", GREY);
    assert_eq!(buf.assemble(2), "\x1b[38;2;255;0;10mab\x1b[38;2;7;7;7m");
}

#[test]
fn long_lines_are_cut() {
    let buf = PartBuf::new().with("ab", RED).with("äöü", GREY).with("z", RED);
    assert_eq!(buf.assemble(4), "\x1b[38;2;255;0;10mab\x1b[38;2;7;7;7mäö");
    let buf = PartBuf::new().with("ab", RED).with("cd", GREY);
    assert_eq!(buf.assemble(2), "\x1b[38;2;255;0;10mab");
    let buf = PartBuf::new().with("ab", RED).with("", GREY).with("cd", RED);
    assert_eq!(buf.assemble(2), "\x1b[38;2;255;0;10mab\x1b[38;2;7;7;7m");
    let buf = PartBuf::new().with("ab", RED).with("cd", GREY).with("", RED);
    assert_eq!(buf.assemble(2), "\x1b[38;2;255;0;10mab");
    let buf = PartBuf::new().with("ab", RED);
    assert_eq!(buf.assemble(0), "");
}

#[test]
fn no_parts_are_filled_up_with_blanks() {
    assert_eq!(PartBuf::new().assemble(3), "   ");
    assert_eq!(PartBuf::new().assemble(0), "");
}

#[test]
fn every_line_of_the_preview_has_the_width() {
    for width in [0, 1, 5, 20, 80] {
        let lines = gen_preview(&theme(), width);
        assert_eq!(lines.len(), 24);
        for line in lines {
            assert_eq!(shown(&line).chars().count(), width);
        }
    }
}

#[test]
fn preview_text_of_a_theme() {
    let lines: Vec<String> = gen_preview(&theme(), 60)
        .iter()
        .map(|l| shown(l).trim_end().to_string())
        .collect();
    assert_eq!(
        lines,
        vec![
            "// Press ? for help",
            "use std::io::Write;",
            "fn main() -> Result<i32, Box<dyn std::error::Error>> {",
            "    let mut stdout = std::io::stdout();",
            "    let theme = recol::selected();",
            "    write!(stdout, \"Name: {}\\n\", theme.name)?;",
            "    write!(stdout, \"Palette:\\n{}\\n\", theme.palette)?;",
            "    Ok(42)",
            "}",
            "Name: Nord",
            "Palette:",
            "  [0][0][0][0][0][0][0][0][0][0]",
            "  [0][0][0][0][0][0][0][0][0][0]",
            "  [0][0][0][0][0][0][0][0][0][0]",
            "Selection:",
            "  [0][0]",
            "Cursor:",
            "  [0][0]",
            "Background:",
            "  [0][0][0][0][0]",
            "Foreground:",
            "  [0][0][0][0]",
            "Diff:",
            "  [0][0][0][0]",
        ]
    );
}

#[test]
fn preview_colours_of_a_theme() {
    let lines = gen_preview(&theme(), 10);
    assert_eq!(lines[0], "\x1b[38;2;9;9;1m// Press ?");
    assert_eq!(lines[9], "\x1b[38;2;9;9;11mName: \x1b[38;2;9;9;30mNord");
    assert_eq!(
        lines[12],
        "\x1b[38;2;2;0;0m  [0]\x1b[38;2;2;1;0m[0]\x1b[38;2;2;2;0m[0"
    );
    assert_eq!(
        lines[23],
        "\x1b[38;2;9;9;50m  [0]\x1b[38;2;9;9;51m[0]\x1b[38;2;9;9;52m[0"
    );
    assert_eq!(
        lines[15],
        "\x1b[38;2;9;9;40m  [0]\x1b[38;2;9;9;41m[0]  "
    );
}
