//! Coloured text of a fixed width, and the preview of a theme made of it.
use vstd::prelude::*;

use crate::text::blanks;
use crate::text::decimal;
use crate::text::fitted;
use crate::text::push_blanks;
use crate::text::push_decimal;
use crate::text::take_chars;
use crate::text::texts;
use crate::theme::Palette;
use crate::theme::Rgb;
use crate::theme::Shades;
use crate::theme::Theme;

verus! {

/// A piece of text in one colour.
#[derive(Debug)]
pub struct Part {
    pub text: String,
    pub color: Rgb,
}

/// What a [`Part`] stands for. Text without a colour is left as it is.
pub struct PartView {
    pub text: Seq<char>,
    pub color: Option<Rgb>,
}

impl View for Part {
    type V = PartView;

    open spec fn view(&self) -> PartView {
        PartView { text: self.text@, color: Some(self.color) }
    }
}

/// Parts that make up one line.
#[derive(Debug)]
pub struct PartBuf(pub Vec<Part>);

impl View for PartBuf {
    type V = Seq<PartView>;

    open spec fn view(&self) -> Seq<PartView> {
        self.0@.map_values(|p: Part| p@)
    }
}

/// `text` behind the terminal's escape sequence for this foreground colour.
pub open spec fn colored(text: Seq<char>, color: Rgb) -> Seq<char> {
    "\x1b[38;2;"@ + decimal(color.r as nat) + ";"@ + decimal(color.g as nat) + ";"@ + decimal(
        color.b as nat,
    ) + "m"@ + text
}

/// The line that a terminal is sent for these parts.
pub open spec fn painted(parts: Seq<PartView>) -> Seq<char>
    decreases parts.len(),
{
    if parts.len() == 0 {
        Seq::empty()
    } else {
        painted(parts.drop_last()) + (match parts.last().color {
            Some(color) => colored(parts.last().text, color),
            None => parts.last().text,
        })
    }
}

/// The characters of these parts that a terminal shows.
pub open spec fn visible(parts: Seq<PartView>) -> Seq<char>
    decreases parts.len(),
{
    if parts.len() == 0 {
        Seq::empty()
    } else {
        parts.first().text + visible(parts.drop_first())
    }
}

/// The parts that lie within the first `width` characters, the last one cut to fit.
pub open spec fn cut_parts(parts: Seq<PartView>, width: nat) -> Seq<PartView>
    decreases parts.len(),
{
    if parts.len() == 0 {
        parts
    } else {
        let first = parts.first();
        if first.text.len() <= width {
            seq![first] + cut_parts(parts.drop_first(), (width - first.text.len()) as nat)
        } else if width > 0 {
            seq![PartView { text: first.text.take(width as int), ..first }]
        } else {
            Seq::empty()
        }
    }
}

/// The parts cut to `width` characters, or the last part filled up with blanks to that
/// width; nothing but blanks, if there are no parts.
pub open spec fn fitted_parts(parts: Seq<PartView>, width: nat) -> Seq<PartView> {
    let len = visible(parts).len();
    if parts.len() == 0 {
        seq![PartView { text: blanks(width), color: None }]
    } else if len < width {
        let last = parts.last();
        parts.drop_last().push(
            PartView { text: last.text + blanks((width - len) as nat), ..last },
        )
    } else {
        cut_parts(parts, width)
    }
}

/// Wraps `text` in the terminal's truecolor foreground escape for `color`.
pub fn color_text(text: &str, color: Rgb) -> (out: String)
    ensures
        out@ == colored(text@, color),
{
    let mut out = "\x1b[38;2;".to_string();
    push_decimal(&mut out, color.r as usize);
    out.append(";");
    push_decimal(&mut out, color.g as usize);
    out.append(";");
    push_decimal(&mut out, color.b as usize);
    out.append("m");
    out.append(text);
    out
}

proof fn lemma_visible_push(parts: Seq<PartView>, part: PartView)
    ensures
        visible(parts.push(part)) == visible(parts) + part.text,
    decreases parts.len(),
{
    let longer = parts.push(part);
    if parts.len() == 0 {
        assert(longer.drop_first() =~= Seq::empty());
        assert(visible(longer.drop_first()) =~= Seq::empty());
        assert(visible(longer) =~= visible(parts) + part.text);
    } else {
        assert(longer.drop_first() =~= parts.drop_first().push(part));
        lemma_visible_push(parts.drop_first(), part);
        assert(visible(longer) =~= visible(parts) + part.text);
    }
}

/// Where everything fits, nothing is cut.
proof fn lemma_cut_nothing(parts: Seq<PartView>, width: nat)
    requires
        visible(parts).len() <= width,
    ensures
        cut_parts(parts, width) == parts,
    decreases parts.len(),
{
    if parts.len() > 0 {
        lemma_cut_nothing(parts.drop_first(), (width - parts.first().text.len()) as nat);
        assert(seq![parts.first()] + parts.drop_first() =~= parts);
    }
}

/// The parts kept show the first `width` characters of all the parts.
proof fn lemma_cut_visible(parts: Seq<PartView>, width: nat)
    requires
        width <= visible(parts).len(),
    ensures
        visible(cut_parts(parts, width)) == visible(parts).take(width as int),
    decreases parts.len(),
{
    if parts.len() > 0 {
        let first = parts.first();
        let rest = parts.drop_first();
        let all = visible(parts);
        if first.text.len() <= width {
            let left = (width - first.text.len()) as nat;
            lemma_cut_visible(rest, left);
            let cut = seq![first] + cut_parts(rest, left);
            assert(cut.drop_first() =~= cut_parts(rest, left));
            assert(first.text + visible(rest).take(left as int) =~= all.take(width as int));
        } else if width > 0 {
            let only = PartView { text: first.text.take(width as int), ..first };
            assert(seq![only].drop_first() =~= Seq::empty());
            assert(visible(seq![only].drop_first()) =~= Seq::empty());
            assert(visible(seq![only]) =~= all.take(width as int));
        } else {
            assert(all.take(0) =~= Seq::empty());
        }
    } else {
        assert(visible(parts).take(width as int) =~= visible(parts));
    }
}

/// The line shows exactly `width` characters: the text of the parts, cut or filled up with
/// blanks.
pub proof fn law_fitted_parts(parts: Seq<PartView>, width: nat)
    ensures
        visible(fitted_parts(parts, width)) == fitted(visible(parts), width),
        visible(fitted_parts(parts, width)).len() == width,
{
    let len = visible(parts).len();
    if parts.len() == 0 {
        let only = fitted_parts(parts, width);
        assert(only.drop_first() =~= Seq::empty());
        assert(visible(only.drop_first()) =~= Seq::empty());
        assert(visible(only) =~= fitted(visible(parts), width));
    } else if len < width {
        let last = parts.last();
        let more = blanks((width - len) as nat);
        lemma_visible_push(parts.drop_last(), last);
        assert(parts.drop_last().push(last) =~= parts);
        lemma_visible_push(parts.drop_last(), PartView { text: last.text + more, ..last });
        assert(visible(fitted_parts(parts, width)) =~= visible(parts) + more);
    } else {
        lemma_cut_visible(parts, width);
    }
}

impl PartBuf {
    /// No parts.
    pub fn new() -> (buf: PartBuf)
        ensures
            buf@ == Seq::<PartView>::empty(),
    {
        let buf = PartBuf(Vec::new());
        assert(buf@ =~= Seq::<PartView>::empty());
        buf
    }

    /// These parts and one more.
    pub fn with(self, text: &str, color: Rgb) -> (buf: PartBuf)
        ensures
            buf@ == self@.push(part(text@, color)),
    {
        let ghost before = self@;
        let mut parts = self.0;
        parts.push(Part { text: text.to_string(), color });
        let buf = PartBuf(parts);
        assert(buf@ =~= before.push(part(text@, color)));
        buf
    }

    /// Pads or truncates the parts so that `width` characters show, then colours them.
    pub fn assemble(self, width: usize) -> (line: String)
        ensures
            line@ == painted(fitted_parts(self@, width as nat)),
    {
        let ghost all = self@;
        let parts = self.0;
        let mut line = String::new();
        if parts.len() == 0 {
            push_blanks(&mut line, width);
            proof {
                let only = fitted_parts(all, width as nat);
                assert(only.drop_last() =~= Seq::empty());
                assert(painted(only.drop_last()) =~= Seq::empty());
                assert(painted(only) =~= line@);
            }
            return line;
        }
        let mut left: usize = width;
        let mut i: usize = 0;
        assert(all.skip(0) =~= all);
        assert(all.take(0) =~= Seq::empty());
        assert(Seq::empty() + cut_parts(all, width as nat) =~= cut_parts(all, width as nat));
        while i < parts.len()
            invariant
                i <= parts@.len(),
                all == self@,
                all.len() == parts@.len(),
                i == parts@.len() && i > 0 ==> left == 0,
                forall|k: int| 0 <= k < all.len() ==> all[k] == (#[trigger] parts@[k])@,
                left <= width,
                visible(all.take(i as int)).len() == width - left,
                cut_parts(all, width as nat) == all.take(i as int) + cut_parts(
                    all.skip(i as int),
                    left as nat,
                ),
                line@ == painted(all.take(i as int)),
            decreases parts@.len() - i,
        {
            let part = &parts[i];
            let len: usize = part.text.as_str().unicode_len();
            let ghost rest = all.skip(i as int);
            let ghost done = all.take(i as int);
            assert(rest.first() == part@);
            assert(rest.drop_first() =~= all.skip(i + 1));
            assert(all.take(i + 1) =~= done.push(part@));
            assert(done.push(part@).drop_last() =~= done);
            proof {
                lemma_visible_push(done, part@);
            }
            if len > left {
                proof {
                    lemma_visible_prefix(all, i + 1);
                }
                if left > 0 {
                    let start = take_chars(&part.text, left);
                    let ghost cut = PartView { text: start@, color: Some(part.color) };
                    line.append(color_text(start.as_str(), part.color).as_str());
                    assert(done + seq![cut] =~= done.push(cut));
                    assert(done.push(cut).drop_last() =~= done);
                } else {
                    assert(done + Seq::<PartView>::empty() =~= done);
                }
                return line;
            }
            if i + 1 == parts.len() && len < left {
                let mut last = part.text.clone();
                push_blanks(&mut last, left - len);
                assert(all.take(i + 1) =~= all);
                assert(all.drop_last() =~= done);
                let ghost filled = PartView { text: last@, color: Some(part.color) };
                assert(done.push(filled).drop_last() =~= done);
                line.append(color_text(last.as_str(), part.color).as_str());
                return line;
            }
            line.append(color_text(part.text.as_str(), part.color).as_str());
            left = left - len;
            i = i + 1;
            assert(done + (seq![part@] + cut_parts(all.skip(i as int), left as nat)) =~= all.take(
                i as int,
            ) + cut_parts(all.skip(i as int), left as nat));
        }
        assert(all.take(i as int) =~= all);
        assert(all.skip(i as int) =~= Seq::empty());
        assert(all + Seq::<PartView>::empty() =~= all);
        line
    }
}

/// The text of some of the parts is no longer than the text of all.
proof fn lemma_visible_prefix(parts: Seq<PartView>, n: int)
    requires
        0 <= n <= parts.len(),
    ensures
        visible(parts.take(n)).len() <= visible(parts).len(),
    decreases parts.len() - n,
{
    if n < parts.len() {
        lemma_visible_prefix(parts, n + 1);
        assert(parts.take(n + 1) =~= parts.take(n).push(parts[n]));
        lemma_visible_push(parts.take(n), parts[n]);
    } else {
        assert(parts.take(n) =~= parts);
    }
}

/// Text in a colour.
pub open spec fn part(text: Seq<char>, color: Rgb) -> PartView {
    PartView { text, color: Some(color) }
}

/// A snippet of code in the theme's colours, line by line.
pub open spec fn snippet_lines(c: Palette) -> Seq<Seq<PartView>> {
    seq![
        seq![
            part("// Press ? for help"@, c.comment),
        ],
        seq![
            part("use "@, c.base.magenta),
            part("std"@, c.base.cyan),
            part("::"@, c.base.blue),
            part("io"@, c.base.cyan),
            part("::"@, c.base.blue),
            part("Write"@, c.base.red),
            part(";"@, c.fg[1]),
        ],
        seq![
            part("fn "@, c.base.magenta),
            part("main"@, c.base.blue),
            part("() "@, c.fg[1]),
            part("-> "@, c.fg[2]),
            part("Result"@, c.base.yellow),
            part("<"@, c.fg[2]),
            part("i32"@, c.base.cyan),
            part(", "@, c.fg[1]),
            part("Box"@, c.base.yellow),
            part("<"@, c.fg[2]),
            part("dyn "@, c.base.magenta),
            part("std"@, c.base.cyan),
            part("::"@, c.base.blue),
            part("error"@, c.base.cyan),
            part("::"@, c.base.blue),
            part("Error"@, c.base.red),
            part(">>"@, c.fg[2]),
            part(" {"@, c.fg[1]),
        ],
        seq![
            part("    let "@, c.base.magenta),
            part("mut "@, c.base.yellow),
            part("stdout = "@, c.fg[1]),
            part("std"@, c.base.cyan),
            part("::"@, c.base.blue),
            part("io"@, c.base.cyan),
            part("::"@, c.base.blue),
            part("stdout"@, c.base.blue),
            part("();"@, c.fg[1]),
        ],
        seq![
            part("    let "@, c.base.magenta),
            part("theme = "@, c.fg[1]),
            part("recol"@, c.base.cyan),
            part("::"@, c.base.blue),
            part("selected"@, c.base.cyan),
            part("();"@, c.fg[1]),
        ],
        seq![
            part("    write!"@, c.base.pink),
            part("(stdout, "@, c.fg[1]),
            part("\"Name: "@, c.base.green),
            part("{}"@, c.base.cyan),
            part("\\n"@, c.base.yellow),
            part("\""@, c.base.green),
            part(", theme"@, c.fg[1]),
            part("."@, c.fg[2]),
            part("name"@, c.base.blue),
            part(")"@, c.fg[1]),
            part("?"@, c.fg[2]),
            part(";"@, c.fg[1]),
        ],
        seq![
            part("    write!"@, c.base.pink),
            part("(stdout, "@, c.fg[1]),
            part("\"Palette:"@, c.base.green),
            part("\\n"@, c.base.yellow),
            part("{}"@, c.base.cyan),
            part("\\n"@, c.base.yellow),
            part("\""@, c.base.green),
            part(", theme"@, c.fg[1]),
            part("."@, c.fg[2]),
            part("palette"@, c.base.blue),
            part(")"@, c.fg[1]),
            part("?"@, c.fg[2]),
            part(";"@, c.fg[1]),
        ],
        seq![
            part("    Ok"@, c.dim.yellow),
            part("("@, c.fg[1]),
            part("42"@, c.base.orange),
            part(")"@, c.fg[1]),
        ],
        seq![
            part("}"@, c.fg[1]),
        ],
    ]
}

/// The output of the snippet: the theme's name and its named colours.
pub open spec fn swatch_lines(name: Seq<char>, c: Palette) -> Seq<Seq<PartView>> {
    seq![
        seq![
            part("Name: "@, c.fg[1]),
            part(name, c.cursor.bg),
        ],
        seq![
            part("Palette:"@, c.fg[1]),
        ],
        seq![
            part("  [0]"@, c.base.black),
            part("[0]"@, c.base.red),
            part("[0]"@, c.base.green),
            part("[0]"@, c.base.yellow),
            part("[0]"@, c.base.blue),
            part("[0]"@, c.base.magenta),
            part("[0]"@, c.base.cyan),
            part("[0]"@, c.base.white),
            part("[0]"@, c.base.orange),
            part("[0]"@, c.base.pink),
        ],
        seq![
            part("  [0]"@, c.bright.black),
            part("[0]"@, c.bright.red),
            part("[0]"@, c.bright.green),
            part("[0]"@, c.bright.yellow),
            part("[0]"@, c.bright.blue),
            part("[0]"@, c.bright.magenta),
            part("[0]"@, c.bright.cyan),
            part("[0]"@, c.bright.white),
            part("[0]"@, c.bright.orange),
            part("[0]"@, c.bright.pink),
        ],
        seq![
            part("  [0]"@, c.dim.black),
            part("[0]"@, c.dim.red),
            part("[0]"@, c.dim.green),
            part("[0]"@, c.dim.yellow),
            part("[0]"@, c.dim.blue),
            part("[0]"@, c.dim.magenta),
            part("[0]"@, c.dim.cyan),
            part("[0]"@, c.dim.white),
            part("[0]"@, c.dim.orange),
            part("[0]"@, c.dim.pink),
        ],
    ]
}

/// The colours that a theme gives to the parts of an editor.
pub open spec fn editor_lines(c: Palette) -> Seq<Seq<PartView>> {
    seq![
        seq![
            part("Selection:"@, c.fg[1]),
        ],
        seq![
            part("  [0]"@, c.selection.bg),
            part("[0]"@, c.selection.fg),
        ],
        seq![
            part("Cursor:"@, c.fg[1]),
        ],
        seq![
            part("  [0]"@, c.cursor.bg),
            part("[0]"@, c.cursor.fg),
        ],
        seq![
            part("Background:"@, c.fg[1]),
        ],
        seq![
            part("  [0]"@, c.bg[0]),
            part("[0]"@, c.bg[1]),
            part("[0]"@, c.bg[2]),
            part("[0]"@, c.bg[3]),
            part("[0]"@, c.bg[4]),
        ],
        seq![
            part("Foreground:"@, c.fg[1]),
        ],
        seq![
            part("  [0]"@, c.fg[0]),
            part("[0]"@, c.fg[1]),
            part("[0]"@, c.fg[2]),
            part("[0]"@, c.fg[3]),
        ],
        seq![
            part("Diff:"@, c.fg[1]),
        ],
        seq![
            part("  [0]"@, c.diff.added),
            part("[0]"@, c.diff.deleted),
            part("[0]"@, c.diff.changed),
            part("[0]"@, c.diff.text),
        ],
    ]
}

/// The lines of the preview of a theme, before they are fitted to a column.
pub open spec fn preview_lines(name: Seq<char>, c: Palette) -> Seq<Seq<PartView>> {
    snippet_lines(c) + swatch_lines(name, c) + editor_lines(c)
}

/// One line of the preview in a column of `width` characters.
pub open spec fn fitted_line(width: nat) -> spec_fn(Seq<PartView>) -> Seq<char> {
    |line: Seq<PartView>| painted(fitted_parts(line, width))
}

/// The preview of a theme in a column of `width` characters.
pub open spec fn preview_text(name: Seq<char>, c: Palette, width: nat) -> Seq<Seq<char>> {
    preview_lines(name, c).map_values(fitted_line(width))
}

/// What these lines of parts stand for.
pub open spec fn buffers(lines: Seq<PartBuf>) -> Seq<Seq<PartView>> {
    lines.map_values(|b: PartBuf| b@)
}

fn no_lines() -> (lines: Vec<PartBuf>)
    ensures
        buffers(lines@) == Seq::<Seq<PartView>>::empty(),
{
    let lines: Vec<PartBuf> = Vec::new();
    assert(buffers(lines@) =~= Seq::<Seq<PartView>>::empty());
    lines
}

fn add_line(lines: &mut Vec<PartBuf>, line: PartBuf)
    ensures
        buffers(final(lines)@) == buffers(old(lines)@).push(line@),
{
    lines.push(line);
    assert(buffers(lines@) =~= buffers(old(lines)@).push(line@));
}

fn snippet(c: &Palette) -> (lines: Vec<PartBuf>)
    ensures
        buffers(lines@) == snippet_lines(*c),
{
    let mut lines = no_lines();
    add_line(
        &mut lines,
        PartBuf::new()
            .with("// Press ? for help", c.comment)
    );
    add_line(
        &mut lines,
        PartBuf::new()
            .with("use ", c.base.magenta)
            .with("std", c.base.cyan)
            .with("::", c.base.blue)
            .with("io", c.base.cyan)
            .with("::", c.base.blue)
            .with("Write", c.base.red)
            .with(";", c.fg[1])
    );
    add_line(
        &mut lines,
        PartBuf::new()
            .with("fn ", c.base.magenta)
            .with("main", c.base.blue)
            .with("() ", c.fg[1])
            .with("-> ", c.fg[2])
            .with("Result", c.base.yellow)
            .with("<", c.fg[2])
            .with("i32", c.base.cyan)
            .with(", ", c.fg[1])
            .with("Box", c.base.yellow)
            .with("<", c.fg[2])
            .with("dyn ", c.base.magenta)
            .with("std", c.base.cyan)
            .with("::", c.base.blue)
            .with("error", c.base.cyan)
            .with("::", c.base.blue)
            .with("Error", c.base.red)
            .with(">>", c.fg[2])
            .with(" {", c.fg[1])
    );
    add_line(
        &mut lines,
        PartBuf::new()
            .with("    let ", c.base.magenta)
            .with("mut ", c.base.yellow)
            .with("stdout = ", c.fg[1])
            .with("std", c.base.cyan)
            .with("::", c.base.blue)
            .with("io", c.base.cyan)
            .with("::", c.base.blue)
            .with("stdout", c.base.blue)
            .with("();", c.fg[1])
    );
    add_line(
        &mut lines,
        PartBuf::new()
            .with("    let ", c.base.magenta)
            .with("theme = ", c.fg[1])
            .with("recol", c.base.cyan)
            .with("::", c.base.blue)
            .with("selected", c.base.cyan)
            .with("();", c.fg[1])
    );
    add_line(
        &mut lines,
        PartBuf::new()
            .with("    write!", c.base.pink)
            .with("(stdout, ", c.fg[1])
            .with("\"Name: ", c.base.green)
            .with("{}", c.base.cyan)
            .with("\\n", c.base.yellow)
            .with("\"", c.base.green)
            .with(", theme", c.fg[1])
            .with(".", c.fg[2])
            .with("name", c.base.blue)
            .with(")", c.fg[1])
            .with("?", c.fg[2])
            .with(";", c.fg[1])
    );
    add_line(
        &mut lines,
        PartBuf::new()
            .with("    write!", c.base.pink)
            .with("(stdout, ", c.fg[1])
            .with("\"Palette:", c.base.green)
            .with("\\n", c.base.yellow)
            .with("{}", c.base.cyan)
            .with("\\n", c.base.yellow)
            .with("\"", c.base.green)
            .with(", theme", c.fg[1])
            .with(".", c.fg[2])
            .with("palette", c.base.blue)
            .with(")", c.fg[1])
            .with("?", c.fg[2])
            .with(";", c.fg[1])
    );
    add_line(
        &mut lines,
        PartBuf::new()
            .with("    Ok", c.dim.yellow)
            .with("(", c.fg[1])
            .with("42", c.base.orange)
            .with(")", c.fg[1])
    );
    add_line(
        &mut lines,
        PartBuf::new()
            .with("}", c.fg[1])
    );
    assert(buffers(lines@) =~~= snippet_lines(*c));
    lines
}

fn swatches(name: &str, c: &Palette) -> (lines: Vec<PartBuf>)
    ensures
        buffers(lines@) == swatch_lines(name@, *c),
{
    let mut lines = no_lines();
    add_line(
        &mut lines,
        PartBuf::new()
            .with("Name: ", c.fg[1])
            .with(name, c.cursor.bg)
    );
    add_line(
        &mut lines,
        PartBuf::new()
            .with("Palette:", c.fg[1])
    );
    add_line(
        &mut lines,
        PartBuf::new()
            .with("  [0]", c.base.black)
            .with("[0]", c.base.red)
            .with("[0]", c.base.green)
            .with("[0]", c.base.yellow)
            .with("[0]", c.base.blue)
            .with("[0]", c.base.magenta)
            .with("[0]", c.base.cyan)
            .with("[0]", c.base.white)
            .with("[0]", c.base.orange)
            .with("[0]", c.base.pink)
    );
    add_line(
        &mut lines,
        PartBuf::new()
            .with("  [0]", c.bright.black)
            .with("[0]", c.bright.red)
            .with("[0]", c.bright.green)
            .with("[0]", c.bright.yellow)
            .with("[0]", c.bright.blue)
            .with("[0]", c.bright.magenta)
            .with("[0]", c.bright.cyan)
            .with("[0]", c.bright.white)
            .with("[0]", c.bright.orange)
            .with("[0]", c.bright.pink)
    );
    add_line(
        &mut lines,
        PartBuf::new()
            .with("  [0]", c.dim.black)
            .with("[0]", c.dim.red)
            .with("[0]", c.dim.green)
            .with("[0]", c.dim.yellow)
            .with("[0]", c.dim.blue)
            .with("[0]", c.dim.magenta)
            .with("[0]", c.dim.cyan)
            .with("[0]", c.dim.white)
            .with("[0]", c.dim.orange)
            .with("[0]", c.dim.pink)
    );
    assert(buffers(lines@) =~~= swatch_lines(name@, *c));
    lines
}

fn editor(c: &Palette) -> (lines: Vec<PartBuf>)
    ensures
        buffers(lines@) == editor_lines(*c),
{
    let mut lines = no_lines();
    add_line(
        &mut lines,
        PartBuf::new()
            .with("Selection:", c.fg[1])
    );
    add_line(
        &mut lines,
        PartBuf::new()
            .with("  [0]", c.selection.bg)
            .with("[0]", c.selection.fg)
    );
    add_line(
        &mut lines,
        PartBuf::new()
            .with("Cursor:", c.fg[1])
    );
    add_line(
        &mut lines,
        PartBuf::new()
            .with("  [0]", c.cursor.bg)
            .with("[0]", c.cursor.fg)
    );
    add_line(
        &mut lines,
        PartBuf::new()
            .with("Background:", c.fg[1])
    );
    add_line(
        &mut lines,
        PartBuf::new()
            .with("  [0]", c.bg[0])
            .with("[0]", c.bg[1])
            .with("[0]", c.bg[2])
            .with("[0]", c.bg[3])
            .with("[0]", c.bg[4])
    );
    add_line(
        &mut lines,
        PartBuf::new()
            .with("Foreground:", c.fg[1])
    );
    add_line(
        &mut lines,
        PartBuf::new()
            .with("  [0]", c.fg[0])
            .with("[0]", c.fg[1])
            .with("[0]", c.fg[2])
            .with("[0]", c.fg[3])
    );
    add_line(
        &mut lines,
        PartBuf::new()
            .with("Diff:", c.fg[1])
    );
    add_line(
        &mut lines,
        PartBuf::new()
            .with("  [0]", c.diff.added)
            .with("[0]", c.diff.deleted)
            .with("[0]", c.diff.changed)
            .with("[0]", c.diff.text)
    );
    assert(buffers(lines@) =~~= editor_lines(*c));
    lines
}

/// Every line of the preview shows exactly `width` characters.
pub proof fn law_preview_width(name: Seq<char>, c: Palette, width: nat, i: int)
    requires
        0 <= i < preview_lines(name, c).len(),
    ensures
        preview_text(name, c, width)[i] == painted(fitted_parts(preview_lines(name, c)[i], width)),
        visible(fitted_parts(preview_lines(name, c)[i], width)).len() == width,
{
    law_fitted_parts(preview_lines(name, c)[i], width);
}

/// Appends these lines to `preview`, fitted to `col_width` characters.
fn assemble_lines(preview: &mut Vec<String>, lines: Vec<PartBuf>, col_width: usize)
    ensures
        texts(final(preview)@) == texts(old(preview)@) + buffers(lines@).map_values(
            fitted_line(col_width as nat),
        ),
{
    let ghost start = texts(preview@);
    let ghost all = buffers(lines@);
    for line in it: lines
        invariant
            start == texts(old(preview)@),
            buffers(it.seq()) == all,
            all == buffers(lines@),
            texts(preview@) == start + all.take(it.index()).map_values(
                fitted_line(col_width as nat),
            ),
    {
        assert(line@ == all[it.index()]);
        let ghost before = preview@;
        preview.push(line.assemble(col_width));
        assert(texts(preview@) =~= texts(before).push(fitted_line(col_width as nat)(line@)));
        assert(all.take(it.index() + 1) =~= all.take(it.index()).push(line@));
        assert(texts(preview@) =~= start + all.take(it.index() + 1).map_values(
            fitted_line(col_width as nat),
        ));
    }
    assert(all.take(all.len() as int) =~= all);
}

/// The preview of a theme, each line `col_width` characters wide.
pub fn gen_preview(theme: &Theme, col_width: usize) -> (preview: Vec<String>)
    ensures
        texts(preview@) == preview_text(theme.name@, theme.colors, col_width as nat),
{
    let mut preview: Vec<String> = Vec::new();
    assemble_lines(&mut preview, snippet(&theme.colors), col_width);
    assemble_lines(&mut preview, swatches(theme.name.as_str(), &theme.colors), col_width);
    assemble_lines(&mut preview, editor(&theme.colors), col_width);
    assert(texts(preview@) =~= preview_text(theme.name@, theme.colors, col_width as nat));
    preview
}

/// The part at `k` of a line is this text in this colour.
pub open spec fn inked(line: Seq<PartView>, k: int, text: Seq<char>, color: Rgb) -> bool {
    0 <= k < line.len() && line[k].text == text && line[k].color == Some(color)
}

/// The code of the preview: the comment is in the colour of comments.
pub proof fn law_code_comment(name: Seq<char>, c: Palette)
    ensures
        inked(preview_lines(name, c)[0], 0, "// Press ? for help"@, c.comment),
{
}

/// The code of the preview: keywords are in magenta.
pub proof fn law_code_keywords(name: Seq<char>, c: Palette)
    ensures
        inked(preview_lines(name, c)[1], 0, "use "@, c.base.magenta),
        inked(preview_lines(name, c)[2], 0, "fn "@, c.base.magenta),
        inked(preview_lines(name, c)[2], 10, "dyn "@, c.base.magenta),
        inked(preview_lines(name, c)[3], 0, "    let "@, c.base.magenta),
        inked(preview_lines(name, c)[4], 0, "    let "@, c.base.magenta),
{
}

/// The code of the preview: modules, primitive types, calls by path and placeholders are in cyan.
pub proof fn law_code_modules(name: Seq<char>, c: Palette)
    ensures
        inked(preview_lines(name, c)[1], 1, "std"@, c.base.cyan),
        inked(preview_lines(name, c)[1], 3, "io"@, c.base.cyan),
        inked(preview_lines(name, c)[2], 6, "i32"@, c.base.cyan),
        inked(preview_lines(name, c)[2], 11, "std"@, c.base.cyan),
        inked(preview_lines(name, c)[2], 13, "error"@, c.base.cyan),
        inked(preview_lines(name, c)[3], 3, "std"@, c.base.cyan),
        inked(preview_lines(name, c)[3], 5, "io"@, c.base.cyan),
        inked(preview_lines(name, c)[4], 2, "recol"@, c.base.cyan),
        inked(preview_lines(name, c)[4], 4, "selected"@, c.base.cyan),
        inked(preview_lines(name, c)[5], 3, "{}"@, c.base.cyan),
        inked(preview_lines(name, c)[6], 4, "{}"@, c.base.cyan),
{
}

/// The code of the preview: functions, fields and the separators of paths are in blue.
pub proof fn law_code_functions(name: Seq<char>, c: Palette)
    ensures
        inked(preview_lines(name, c)[1], 2, "::"@, c.base.blue),
        inked(preview_lines(name, c)[1], 4, "::"@, c.base.blue),
        inked(preview_lines(name, c)[2], 1, "main"@, c.base.blue),
        inked(preview_lines(name, c)[2], 12, "::"@, c.base.blue),
        inked(preview_lines(name, c)[2], 14, "::"@, c.base.blue),
        inked(preview_lines(name, c)[3], 4, "::"@, c.base.blue),
        inked(preview_lines(name, c)[3], 6, "::"@, c.base.blue),
        inked(preview_lines(name, c)[3], 7, "stdout"@, c.base.blue),
        inked(preview_lines(name, c)[4], 3, "::"@, c.base.blue),
        inked(preview_lines(name, c)[5], 8, "name"@, c.base.blue),
        inked(preview_lines(name, c)[6], 9, "palette"@, c.base.blue),
{
}

/// The code of the preview: traits are in red.
pub proof fn law_code_traits(name: Seq<char>, c: Palette)
    ensures
        inked(preview_lines(name, c)[1], 5, "Write"@, c.base.red),
        inked(preview_lines(name, c)[2], 15, "Error"@, c.base.red),
{
}

/// The code of the preview: plain text and brackets are in the foreground.
pub proof fn law_code_plain(name: Seq<char>, c: Palette)
    ensures
        inked(preview_lines(name, c)[1], 6, ";"@, c.fg[1]),
        inked(preview_lines(name, c)[2], 2, "() "@, c.fg[1]),
        inked(preview_lines(name, c)[2], 7, ", "@, c.fg[1]),
        inked(preview_lines(name, c)[2], 17, " {"@, c.fg[1]),
        inked(preview_lines(name, c)[3], 2, "stdout = "@, c.fg[1]),
        inked(preview_lines(name, c)[3], 8, "();"@, c.fg[1]),
        inked(preview_lines(name, c)[4], 1, "theme = "@, c.fg[1]),
        inked(preview_lines(name, c)[4], 5, "();"@, c.fg[1]),
        inked(preview_lines(name, c)[5], 1, "(stdout, "@, c.fg[1]),
        inked(preview_lines(name, c)[5], 6, ", theme"@, c.fg[1]),
        inked(preview_lines(name, c)[5], 9, ")"@, c.fg[1]),
        inked(preview_lines(name, c)[5], 11, ";"@, c.fg[1]),
        inked(preview_lines(name, c)[6], 1, "(stdout, "@, c.fg[1]),
        inked(preview_lines(name, c)[6], 7, ", theme"@, c.fg[1]),
        inked(preview_lines(name, c)[6], 10, ")"@, c.fg[1]),
        inked(preview_lines(name, c)[6], 12, ";"@, c.fg[1]),
        inked(preview_lines(name, c)[7], 1, "("@, c.fg[1]),
        inked(preview_lines(name, c)[7], 3, ")"@, c.fg[1]),
        inked(preview_lines(name, c)[8], 0, "}"@, c.fg[1]),
{
}

/// The code of the preview: operators are in the fainter foreground.
pub proof fn law_code_operators(name: Seq<char>, c: Palette)
    ensures
        inked(preview_lines(name, c)[2], 3, "-> "@, c.fg[2]),
        inked(preview_lines(name, c)[2], 5, "<"@, c.fg[2]),
        inked(preview_lines(name, c)[2], 9, "<"@, c.fg[2]),
        inked(preview_lines(name, c)[2], 16, ">>"@, c.fg[2]),
        inked(preview_lines(name, c)[5], 7, "."@, c.fg[2]),
        inked(preview_lines(name, c)[5], 10, "?"@, c.fg[2]),
        inked(preview_lines(name, c)[6], 8, "."@, c.fg[2]),
        inked(preview_lines(name, c)[6], 11, "?"@, c.fg[2]),
{
}

/// The code of the preview: types, `mut` and escapes are in yellow.
pub proof fn law_code_types(name: Seq<char>, c: Palette)
    ensures
        inked(preview_lines(name, c)[2], 4, "Result"@, c.base.yellow),
        inked(preview_lines(name, c)[2], 8, "Box"@, c.base.yellow),
        inked(preview_lines(name, c)[3], 1, "mut "@, c.base.yellow),
        inked(preview_lines(name, c)[5], 4, "\\n"@, c.base.yellow),
        inked(preview_lines(name, c)[6], 3, "\\n"@, c.base.yellow),
        inked(preview_lines(name, c)[6], 5, "\\n"@, c.base.yellow),
{
}

/// The code of the preview: macros are in pink.
pub proof fn law_code_macros(name: Seq<char>, c: Palette)
    ensures
        inked(preview_lines(name, c)[5], 0, "    write!"@, c.base.pink),
        inked(preview_lines(name, c)[6], 0, "    write!"@, c.base.pink),
{
}

/// The code of the preview: strings are in green.
pub proof fn law_code_strings(name: Seq<char>, c: Palette)
    ensures
        inked(preview_lines(name, c)[5], 2, "\"Name: "@, c.base.green),
        inked(preview_lines(name, c)[5], 5, "\""@, c.base.green),
        inked(preview_lines(name, c)[6], 2, "\"Palette:"@, c.base.green),
        inked(preview_lines(name, c)[6], 6, "\""@, c.base.green),
{
}

/// The code of the preview: the constructor of the result is in dim yellow.
pub proof fn law_code_ok(name: Seq<char>, c: Palette)
    ensures
        inked(preview_lines(name, c)[7], 0, "    Ok"@, c.dim.yellow),
{
}

/// The code of the preview: numbers are in orange.
pub proof fn law_code_numbers(name: Seq<char>, c: Palette)
    ensures
        inked(preview_lines(name, c)[7], 2, "42"@, c.base.orange),
{
}

/// The preview has 24 lines, each of a fixed number of parts.
pub proof fn law_preview_shape(name: Seq<char>, c: Palette)
    ensures
        preview_lines(name, c).len() == 24,
        preview_lines(name, c)[0].len() == 1,
        preview_lines(name, c)[1].len() == 7,
        preview_lines(name, c)[2].len() == 18,
        preview_lines(name, c)[3].len() == 9,
        preview_lines(name, c)[4].len() == 6,
        preview_lines(name, c)[5].len() == 12,
        preview_lines(name, c)[6].len() == 13,
        preview_lines(name, c)[7].len() == 4,
        preview_lines(name, c)[8].len() == 1,
        preview_lines(name, c)[9].len() == 2,
        preview_lines(name, c)[10].len() == 1,
        preview_lines(name, c)[11].len() == 10,
        preview_lines(name, c)[12].len() == 10,
        preview_lines(name, c)[13].len() == 10,
        preview_lines(name, c)[14].len() == 1,
        preview_lines(name, c)[15].len() == 2,
        preview_lines(name, c)[16].len() == 1,
        preview_lines(name, c)[17].len() == 2,
        preview_lines(name, c)[18].len() == 1,
        preview_lines(name, c)[19].len() == 5,
        preview_lines(name, c)[20].len() == 1,
        preview_lines(name, c)[21].len() == 4,
        preview_lines(name, c)[22].len() == 1,
        preview_lines(name, c)[23].len() == 4,
{
}

/// The named colours in the order in which they are shown.
pub open spec fn spectrum(s: Shades) -> Seq<Rgb> {
    seq![
        s.black,
        s.red,
        s.green,
        s.yellow,
        s.blue,
        s.magenta,
        s.cyan,
        s.white,
        s.orange,
        s.pink,
    ]
}

/// The preview names the theme, in the colour of the cursor.
pub proof fn law_preview_name(name: Seq<char>, c: Palette)
    ensures
        inked(preview_lines(name, c)[9], 0, "Name: "@, c.fg[1]),
        inked(preview_lines(name, c)[9], 1, name, c.cursor.bg),
{
}

/// The line of swatches shows exactly these colours, in this order.
pub open spec fn swatched(line: Seq<PartView>, colors: Seq<Rgb>) -> bool {
    &&& line.len() == colors.len()
    &&& forall|k: int|
        0 <= k < colors.len() ==> (#[trigger] line[k]).color == Some(colors[k]) && line[k].text
            == if k == 0 {
            "  [0]"@
        } else {
            "[0]"@
        }
}

/// Under its heading the palette is shown in three rows: the base shades, the bright ones and
/// the dim ones, each from black to pink.
pub proof fn law_preview_palette(name: Seq<char>, c: Palette)
    ensures
        inked(preview_lines(name, c)[10], 0, "Palette:"@, c.fg[1]),
        swatched(preview_lines(name, c)[11], spectrum(c.base)),
        swatched(preview_lines(name, c)[12], spectrum(c.bright)),
        swatched(preview_lines(name, c)[13], spectrum(c.dim)),
{
}

/// Then come the colours of an editor, each row under its heading: those of the selection and
/// of the cursor, background first; the five backgrounds; the four foregrounds; and those of
/// added, deleted and changed text and of a change within a line.
pub proof fn law_preview_editor(name: Seq<char>, c: Palette)
    ensures
        inked(preview_lines(name, c)[14], 0, "Selection:"@, c.fg[1]),
        swatched(preview_lines(name, c)[15], seq![c.selection.bg, c.selection.fg]),
        inked(preview_lines(name, c)[16], 0, "Cursor:"@, c.fg[1]),
        swatched(preview_lines(name, c)[17], seq![c.cursor.bg, c.cursor.fg]),
        inked(preview_lines(name, c)[18], 0, "Background:"@, c.fg[1]),
        swatched(preview_lines(name, c)[19], c.bg@),
        inked(preview_lines(name, c)[20], 0, "Foreground:"@, c.fg[1]),
        swatched(preview_lines(name, c)[21], c.fg@),
        inked(preview_lines(name, c)[22], 0, "Diff:"@, c.fg[1]),
        swatched(
            preview_lines(name, c)[23],
            seq![c.diff.added, c.diff.deleted, c.diff.changed, c.diff.text],
        ),
{
}

/// Each line of the preview is sent to the terminal by itself, in order.
pub proof fn law_preview_lines(name: Seq<char>, c: Palette, width: nat)
    ensures
        preview_text(name, c, width).len() == preview_lines(name, c).len(),
        forall|i: int|
            0 <= i < preview_lines(name, c).len() ==> #[trigger] preview_text(name, c, width)[i]
                == painted(fitted_parts(preview_lines(name, c)[i], width)),
{
}

/// Parts are sent one after the other: what is sent for some of them comes before what is
/// sent for those behind. The same holds of what they show.
pub proof fn law_parts_in_turn(a: Seq<PartView>, b: Seq<PartView>)
    ensures
        painted(a + b) == painted(a) + painted(b),
        visible(a + b) == visible(a) + visible(b),
    decreases b.len(),
{
    if b.len() == 0 {
        assert(a + b =~= a);
        assert(painted(a) + painted(b) =~= painted(a));
        assert(visible(a) + visible(b) =~= visible(a));
    } else {
        let less = b.drop_last();
        law_parts_in_turn(a, less);
        assert((a + b).drop_last() =~= a + less);
        assert((a + b).last() == b.last());
        assert(painted(a + b) =~= painted(a) + painted(b));
        lemma_visible_push(a + less, b.last());
        lemma_visible_push(less, b.last());
        assert((a + less).push(b.last()) =~= a + b);
        assert(less.push(b.last()) =~= b);
        assert(visible(a + b) =~= visible(a) + visible(b));
    }
}

/// A part shows its text. It is sent in its colour, or as it is if it has none.
pub proof fn law_part_alone(p: PartView)
    ensures
        visible(seq![p]) == p.text,
        p.color is None ==> painted(seq![p]) == p.text,
        p.color matches Some(color) ==> painted(seq![p]) == colored(p.text, color),
{
    let one = seq![p];
    assert(one.drop_first() =~= Seq::empty());
    assert(one.drop_last() =~= Seq::empty());
    assert(visible(one.drop_first()) =~= Seq::empty());
    assert(painted(one.drop_last()) =~= Seq::empty());
    assert(visible(one) =~= p.text);
    match p.color {
        Some(color) => {
            assert(painted(one) =~= colored(p.text, color));
        },
        None => {
            assert(painted(one) =~= p.text);
        },
    }
}

/// A coloured text is the text itself behind the numbers of its red, green and blue, with a
/// semicolon between them, the start of a foreground sequence before them and an `m` behind.
pub proof fn law_colored(text: Seq<char>, color: Rgb)
    ensures
        ({
            let out = colored(text, color);
            let r = decimal(color.r as nat);
            let g = decimal(color.g as nat);
            let b = decimal(color.b as nat);
            let at_g = 8int + r.len();
            let at_b = at_g + g.len() + 1;
            let at_m = at_b + b.len();
            &&& out.len() == at_m + 1 + text.len()
            &&& out.take(7) == "\x1b[38;2;"@
            &&& out.subrange(7, at_g - 1) == r && out[at_g - 1] == ';'
            &&& out.subrange(at_g, at_b - 1) == g && out[at_b - 1] == ';'
            &&& out.subrange(at_b, at_m) == b && out[at_m] == 'm'
            &&& out.skip(at_m + 1) == text
        }),
{
    reveal_strlit("\x1b[38;2;");
    reveal_strlit(";");
    reveal_strlit("m");
    let out = colored(text, color);
    let r = decimal(color.r as nat);
    let g = decimal(color.g as nat);
    let b = decimal(color.b as nat);
    let at_g = 8int + r.len();
    let at_b = at_g + g.len() + 1;
    let at_m = at_b + b.len();
    assert(out.take(7) =~= "\x1b[38;2;"@);
    assert(out.subrange(7, at_g - 1) =~= r);
    assert(out.subrange(at_g, at_b - 1) =~= g);
    assert(out.subrange(at_b, at_m) =~= b);
    assert(out.skip(at_m + 1) =~= text);
}

proof fn lemma_cut_keeps(parts: Seq<PartView>, width: nat)
    ensures
        cut_parts(parts, width).len() <= parts.len(),
        forall|i: int|
            0 <= i < cut_parts(parts, width).len() - 1 ==> #[trigger] cut_parts(parts, width)[i]
                == parts[i],
        forall|i: int|
            0 <= i < cut_parts(parts, width).len() ==> (#[trigger] cut_parts(parts, width)[i]).color
                == parts[i].color,
    decreases parts.len(),
{
    if parts.len() > 0 {
        let first = parts.first();
        if first.text.len() <= width {
            let left = (width - first.text.len()) as nat;
            let rest = parts.drop_first();
            lemma_cut_keeps(rest, left);
            let cut = cut_parts(parts, width);
            assert forall|i: int| 0 <= i < cut.len() implies (#[trigger] cut[i]).color
                == parts[i].color && (i < cut.len() - 1 ==> cut[i] == parts[i]) by {
                if i > 0 {
                    assert(cut[i] == cut_parts(rest, left)[i - 1]);
                    assert(parts[i] == rest[i - 1]);
                }
            }
        }
    }
}

/// Fitting a line to a width changes no colour. Parts are taken off its end only, and but for
/// the last part left none is changed. A line without parts is blank.
pub proof fn law_fitted_colors(parts: Seq<PartView>, width: nat)
    ensures
        ({
            let line = fitted_parts(parts, width);
            &&& parts.len() > 0 ==> {
                &&& line.len() <= parts.len()
                &&& forall|i: int|
                    0 <= i < line.len() ==> (#[trigger] line[i]).color == parts[i].color
                &&& forall|i: int| 0 <= i < line.len() - 1 ==> #[trigger] line[i] == parts[i]
            }
            &&& parts.len() == 0 ==> painted(line).len() == width && forall|i: int|
                0 <= i < width ==> #[trigger] painted(line)[i] == ' '
        }),
{
    lemma_cut_keeps(parts, width);
    if parts.len() == 0 {
        law_part_alone(PartView { text: blanks(width), color: None });
    }
}

} // verus!
