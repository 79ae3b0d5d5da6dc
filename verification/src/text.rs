//! Texts: numbers in decimal, fixed widths, lines and words.
use vstd::prelude::*;

verus! {

/// `String::push` appends one character.
pub assume_specification[ String::push ](s: &mut String, c: char)
    ensures
        final(s)@ == old(s)@.push(c),
;

/// `String::pop` takes the last character off and returns it, or returns `None` and
/// leaves the text empty.
pub assume_specification[ String::pop ](s: &mut String) -> (c: Option<char>)
    ensures
        old(s)@.len() == 0 ==> c is None && final(s)@ == old(s)@,
        old(s)@.len() > 0 ==> c == Some(old(s)@.last()) && final(s)@ == old(s)@.drop_last(),
;

/// The characters with Unicode's `White_Space` property.
pub open spec fn is_white(c: char) -> bool {
    let n = c as int;
    ||| 0x09 <= n <= 0x0d
    ||| n == 0x20
    ||| n == 0x85
    ||| n == 0xa0
    ||| n == 0x1680
    ||| 0x2000 <= n <= 0x200a
    ||| n == 0x2028
    ||| n == 0x2029
    ||| n == 0x202f
    ||| n == 0x205f
    ||| n == 0x3000
}

/// `char::is_whitespace` tells the characters with Unicode's `White_Space` property.
pub assume_specification[ char::is_whitespace ](c: char) -> (white: bool)
    ensures
        white == is_white(c),
;

/// The digit that stands for `d`.
pub open spec fn digit(d: int) -> char {
    (0x30 + d) as char
}

/// `n` in decimal, without leading zeros.
pub open spec fn decimal(n: nat) -> Seq<char>
    decreases n,
{
    if n < 10 {
        seq![digit(n as int)]
    } else {
        decimal(n / 10).push(digit((n % 10) as int))
    }
}

/// Appends `n` in decimal.
pub fn push_decimal(out: &mut String, n: usize)
    ensures
        final(out)@ == old(out)@ + decimal(n as nat),
    decreases n,
{
    if n >= 10 {
        push_decimal(out, n / 10);
    }
    let last: u8 = (n % 10) as u8;
    out.push((0x30 + last) as char);
    assert(out@ == old(out)@ + decimal(n as nat));
}

/// `n` blanks.
pub open spec fn blanks(n: nat) -> Seq<char> {
    Seq::new(n, |i: int| ' ')
}

/// Appends `n` blanks.
pub fn push_blanks(out: &mut String, n: usize)
    ensures
        final(out)@ == old(out)@ + blanks(n as nat),
{
    let ghost start = out@;
    let mut i: usize = 0;
    while i < n
        invariant
            i <= n,
            out@ == start + blanks(i as nat),
        decreases n - i,
    {
        out.push(' ');
        i = i + 1;
        assert(out@ =~= start + blanks(i as nat));
    }
}

/// The first `width` characters of `s`, filled up with blanks if there are fewer.
pub open spec fn fitted(s: Seq<char>, width: nat) -> Seq<char> {
    if s.len() < width {
        s + blanks((width - s.len()) as nat)
    } else {
        s.take(width as int)
    }
}

/// A fitted text has exactly the width asked for.
pub proof fn law_fitted_width(s: Seq<char>, width: nat)
    ensures
        fitted(s, width).len() == width,
{
}

/// Cuts or fills up `text` to `width` characters.
pub fn fit(text: &String, width: usize) -> (out: String)
    ensures
        out@ == fitted(text@, width as nat),
{
    let len: usize = text.as_str().unicode_len();
    if len < width {
        let mut out = text.clone();
        push_blanks(&mut out, width - len);
        out
    } else {
        take_chars(text, width)
    }
}

/// The first `n` characters of `text`.
pub fn take_chars(text: &String, n: usize) -> (out: String)
    requires
        n <= text@.len(),
    ensures
        out@ == text@.take(n as int),
{
    text.as_str().substring_char(0, n).to_string()
}

/// `s`, filled up with blanks to `width` characters if there are fewer.
pub open spec fn padded(s: Seq<char>, width: nat) -> Seq<char> {
    if s.len() < width {
        s + blanks((width - s.len()) as nat)
    } else {
        s
    }
}

/// `text`, filled up with blanks to at least `width` characters.
pub fn pad(text: &str, width: usize) -> (out: String)
    ensures
        out@ == padded(text@, width as nat),
{
    let len: usize = text.unicode_len();
    let mut out = text.to_string();
    if len < width {
        push_blanks(&mut out, width - len);
    }
    out
}

/// The texts of a list of strings.
pub open spec fn texts(strings: Seq<String>) -> Seq<Seq<char>> {
    strings.map_values(|s: String| s@)
}

/// `s` without the white space at its beginning.
pub open spec fn trimmed_start(s: Seq<char>) -> Seq<char>
    decreases s.len(),
{
    if s.len() > 0 && is_white(s.first()) {
        trimmed_start(s.drop_first())
    } else {
        s
    }
}

/// `s` without the white space at its end.
pub open spec fn trimmed_end(s: Seq<char>) -> Seq<char>
    decreases s.len(),
{
    if s.len() > 0 && is_white(s.last()) {
        trimmed_end(s.drop_last())
    } else {
        s
    }
}

/// `s` without the white space at either end.
pub open spec fn trimmed(s: Seq<char>) -> Seq<char> {
    trimmed_end(trimmed_start(s))
}

/// The characters `from..to` of `chars` as a text.
pub fn text_of(chars: &Vec<char>, from: usize, to: usize) -> (out: String)
    requires
        from <= to <= chars@.len(),
    ensures
        out@ == chars@.subrange(from as int, to as int),
{
    let mut out = String::new();
    let mut i: usize = from;
    while i < to
        invariant
            from <= i <= to <= chars@.len(),
            out@ == chars@.subrange(from as int, i as int),
        decreases to - i,
    {
        out.push(chars[i]);
        i = i + 1;
        assert(out@ =~= chars@.subrange(from as int, i as int));
    }
    out
}

/// The text of `chars` without the white space at either end.
pub fn trim(chars: &Vec<char>) -> (out: String)
    ensures
        out@ == trimmed(chars@),
{
    let mut from: usize = 0;
    let len: usize = chars.len();
    assert(chars@.subrange(0, len as int) =~= chars@);
    while from < len && chars[from].is_whitespace()
        invariant
            from <= len == chars@.len(),
            trimmed_start(chars@) == trimmed_start(chars@.subrange(from as int, len as int)),
        decreases len - from,
    {
        assert(chars@.subrange(from as int, len as int).drop_first() =~= chars@.subrange(
            from + 1,
            len as int,
        ));
        from = from + 1;
    }
    let mut to: usize = len;
    while to > from && chars[to - 1].is_whitespace()
        invariant
            from <= to <= len == chars@.len(),
            trimmed(chars@) == trimmed_end(chars@.subrange(from as int, to as int)),
        decreases to,
    {
        assert(chars@.subrange(from as int, to as int).drop_last() =~= chars@.subrange(
            from as int,
            to - 1,
        ));
        to = to - 1;
    }
    text_of(chars, from, to)
}

/// The characters of `s` before its first blank, or all of them if it has none.
pub open spec fn first_word(s: Seq<char>) -> Seq<char>
    decreases s.len(),
{
    if s.len() == 0 || s.first() == ' ' {
        Seq::empty()
    } else {
        seq![s.first()] + first_word(s.drop_first())
    }
}

/// The part of `text` before its first blank.
pub fn word(text: &str) -> (out: String)
    ensures
        out@ == first_word(text@),
{
    let len: usize = text.unicode_len();
    let mut out = String::new();
    let mut i: usize = 0;
    assert(text@.skip(0) =~= text@);
    while i < len
        invariant
            i <= len == text@.len(),
            first_word(text@) == out@ + first_word(text@.skip(i as int)),
        decreases len - i,
    {
        let c = text.get_char(i);
        if c == ' ' {
            assert(first_word(text@.skip(i as int)) =~= Seq::empty());
            return out;
        }
        assert(text@.skip(i as int).drop_first() =~= text@.skip(i + 1));
        let ghost before = out@;
        out.push(c);
        assert(before + (seq![c] + first_word(text@.skip(i + 1))) =~= out@ + first_word(
            text@.skip(i + 1),
        ));
        i = i + 1;
    }
    assert(first_word(text@.skip(len as int)) =~= Seq::empty());
    out
}

/// The pieces of `s` between its line feeds.
pub open spec fn pieces(s: Seq<char>) -> Seq<Seq<char>>
    decreases s.len(),
{
    if s.len() == 0 {
        seq![Seq::empty()]
    } else {
        let before = pieces(s.drop_last());
        if s.last() == '\n' {
            before.push(Seq::empty())
        } else {
            before.drop_last().push(before.last().push(s.last()))
        }
    }
}

/// There is always a piece.
pub(crate) proof fn lemma_pieces_nonempty(s: Seq<char>)
    ensures
        pieces(s).len() > 0,
    decreases s.len(),
{
    if s.len() > 0 {
        lemma_pieces_nonempty(s.drop_last());
    }
}

/// Text without a line feed joins the last piece.
pub(crate) proof fn lemma_pieces_append(s: Seq<char>, t: Seq<char>)
    requires
        !t.contains('\n'),
    ensures
        pieces(s + t) == pieces(s).drop_last().push(pieces(s).last() + t),
    decreases t.len(),
{
    lemma_pieces_nonempty(s);
    if t.len() == 0 {
        assert(s + t =~= s);
        assert(pieces(s).last() + t =~= pieces(s).last());
        assert(pieces(s).drop_last().push(pieces(s).last()) =~= pieces(s));
    } else {
        assert forall|i: int| 0 <= i < t.len() - 1 implies t.drop_last()[i] != '\n' by {
            assert(t.contains(t[i]));
        }
        lemma_pieces_append(s, t.drop_last());
        assert((s + t).drop_last() =~= s + t.drop_last());
        assert(t.contains(t.last()));
        let before = pieces(s).drop_last().push(pieces(s).last() + t.drop_last());
        assert(before.drop_last() =~= pieces(s).drop_last());
        assert((pieces(s).last() + t.drop_last()).push(t.last()) =~= pieces(s).last() + t);
    }
}

/// The number that a text of digits stands for, each digit counting ten times the next.
pub open spec fn number(digits: Seq<char>) -> int
    decreases digits.len(),
{
    if digits.len() == 0 {
        0
    } else {
        10 * number(digits.drop_last()) + (digits.last() as int - '0' as int)
    }
}

/// A number in decimal is made of digits, reads as that number, and has no zero in front.
pub proof fn law_decimal(n: nat)
    ensures
        number(decimal(n)) == n,
        decimal(n).len() > 0,
        forall|i: int| 0 <= i < decimal(n).len() ==> '0' <= #[trigger] decimal(n)[i] <= '9',
        decimal(n)[0] == '0' ==> n == 0 && decimal(n).len() == 1,
    decreases n,
{
    let text = decimal(n);
    if n >= 10 {
        law_decimal(n / 10);
        assert(text.drop_last() =~= decimal(n / 10));
        assert(text[0] == decimal(n / 10)[0]);
    } else {
        assert(text.drop_last() =~= Seq::empty());
        assert(number(text.drop_last()) == 0);
    }
}

/// A fitted text begins with the text as far as there is room, and has nothing but blanks
/// behind it.
pub proof fn law_fitted_text(s: Seq<char>, width: nat)
    ensures
        fitted(s, width).len() == width,
        forall|i: int| 0 <= i < width && i < s.len() ==> #[trigger] fitted(s, width)[i] == s[i],
        forall|i: int| s.len() <= i < width ==> #[trigger] fitted(s, width)[i] == ' ',
{
}

/// A text that is filled up stays whole, and only blanks are added, no more than needed.
pub proof fn law_padded_text(s: Seq<char>, width: nat)
    ensures
        padded(s, width).len() == if s.len() < width { width } else { s.len() },
        s.is_prefix_of(padded(s, width)),
        forall|i: int|
            s.len() <= i < padded(s, width).len() ==> #[trigger] padded(s, width)[i] == ' ',
{
    assert(padded(s, width).take(s.len() as int) =~= s);
}

proof fn lemma_trimmed_start_cuts(s: Seq<char>) -> (cut: int)
    ensures
        0 <= cut <= s.len(),
        trimmed_start(s) == s.skip(cut),
        forall|k: int| 0 <= k < cut ==> is_white(#[trigger] s[k]),
        cut < s.len() ==> !is_white(s[cut]),
    decreases s.len(),
{
    if s.len() > 0 && is_white(s.first()) {
        let less = lemma_trimmed_start_cuts(s.drop_first());
        assert(s.drop_first().skip(less) =~= s.skip(less + 1));
        assert forall|k: int| 0 <= k < less + 1 implies is_white(#[trigger] s[k]) by {
            if k > 0 {
                assert(is_white(s.drop_first()[k - 1]));
            }
        }
        less + 1
    } else {
        assert(s.skip(0) =~= s);
        0
    }
}

proof fn lemma_trimmed_end_keeps(s: Seq<char>) -> (kept: int)
    ensures
        0 <= kept <= s.len(),
        trimmed_end(s) == s.take(kept),
        forall|k: int| kept <= k < s.len() ==> is_white(#[trigger] s[k]),
        kept > 0 ==> !is_white(s[kept - 1]),
    decreases s.len(),
{
    if s.len() > 0 && is_white(s.last()) {
        let kept = lemma_trimmed_end_keeps(s.drop_last());
        assert(s.drop_last().take(kept) =~= s.take(kept));
        assert forall|k: int| kept <= k < s.len() implies is_white(#[trigger] s[k]) by {
            if k < s.len() - 1 {
                assert(is_white(s.drop_last()[k]));
            }
        }
        kept
    } else {
        assert(s.take(s.len() as int) =~= s);
        s.len() as int
    }
}

/// Trimming cuts off white space at both ends and nothing else, and leaves none there.
pub proof fn law_trimmed(s: Seq<char>) -> (range: (int, int))
    ensures
        0 <= range.0 <= range.1 <= s.len(),
        trimmed(s) == s.subrange(range.0, range.1),
        forall|k: int| 0 <= k < range.0 ==> is_white(#[trigger] s[k]),
        forall|k: int| range.1 <= k < s.len() ==> is_white(#[trigger] s[k]),
        range.0 < range.1 ==> !is_white(s[range.0]) && !is_white(s[range.1 - 1]),
{
    let cut = lemma_trimmed_start_cuts(s);
    let rest = trimmed_start(s);
    let kept = lemma_trimmed_end_keeps(rest);
    assert(rest.take(kept) =~= s.subrange(cut, cut + kept));
    assert forall|k: int| cut + kept <= k < s.len() implies is_white(#[trigger] s[k]) by {
        assert(is_white(rest[k - cut]));
    }
    if kept > 0 {
        assert(!is_white(rest[kept - 1]));
        assert(rest[kept - 1] == s[cut + kept - 1]);
    }
    (cut, cut + kept)
}

/// The first word is the beginning of the text up to a blank or its end, and holds no blank.
pub proof fn law_first_word(s: Seq<char>)
    ensures
        first_word(s).is_prefix_of(s),
        forall|i: int| 0 <= i < first_word(s).len() ==> #[trigger] first_word(s)[i] != ' ',
        first_word(s).len() < s.len() ==> s[first_word(s).len() as int] == ' ',
    decreases s.len(),
{
    let w = first_word(s);
    if s.len() > 0 && s.first() != ' ' {
        let rest = s.drop_first();
        law_first_word(rest);
        assert(w.drop_first() =~= first_word(rest));
        assert forall|i: int| 0 <= i < w.len() implies #[trigger] w[i] != ' ' && w[i] == s[i] by {
            if i > 0 {
                assert(w[i] == first_word(rest)[i - 1]);
                assert(first_word(rest)[i - 1] == rest[i - 1]);
            }
        }
        assert(w =~= s.take(w.len() as int));
    } else {
        assert(w =~= s.take(0));
    }
}

/// The pieces on both sides of a line feed are those of the texts on both sides.
pub proof fn law_pieces_of_lines(a: Seq<char>, b: Seq<char>)
    ensures
        pieces(a.push('\n') + b) == pieces(a) + pieces(b),
    decreases b.len(),
{
    let all = a.push('\n') + b;
    if b.len() == 0 {
        assert(all =~= a.push('\n'));
        assert(all.drop_last() =~= a);
        assert(pieces(all) =~= pieces(a) + pieces(b));
    } else {
        let less = b.drop_last();
        law_pieces_of_lines(a, less);
        lemma_pieces_nonempty(less);
        assert(all.drop_last() =~= a.push('\n') + less);
        assert(pieces(all) =~= pieces(a) + pieces(b));
    }
}

/// A text without a line feed is one piece.
pub proof fn law_piece_of_line(s: Seq<char>)
    requires
        !s.contains('\n'),
    ensures
        pieces(s) == seq![s],
{
    lemma_pieces_append(Seq::empty(), s);
    assert(Seq::<char>::empty() + s =~= s);
    assert(pieces(s) =~= seq![s]);
}

/// What is kept of two sequences is kept of each.
pub(crate) proof fn lemma_filter_map_add<A, B>(a: Seq<A>, b: Seq<A>, f: spec_fn(A) -> Option<B>)
    ensures
        (a + b).filter_map(f) == a.filter_map(f) + b.filter_map(f),
    decreases b.len(),
{
    if b.len() == 0 {
        assert(a + b =~= a);
        assert(a.filter_map(f) + b.filter_map(f) =~= a.filter_map(f));
    } else {
        lemma_filter_map_add(a, b.drop_last(), f);
        assert((a + b).drop_last() =~= a + b.drop_last());
        assert((a + b).last() == b.last());
        assert((a + b).filter_map(f) =~= a.filter_map(f) + b.filter_map(f));
    }
}

/// What is kept of a single item.
pub(crate) proof fn lemma_filter_map_one<A, B>(a: A, f: spec_fn(A) -> Option<B>)
    ensures
        seq![a].filter_map(f) == match f(a) {
            Some(b) => seq![b],
            None => Seq::empty(),
        },
{
    assert(seq![a].drop_last() =~= Seq::empty());
    assert(seq![a].drop_last().filter_map(f) =~= Seq::empty());
    assert(seq![a].filter_map(f) =~= match f(a) {
        Some(b) => seq![b],
        None => Seq::empty(),
    });
}

} // verus!
