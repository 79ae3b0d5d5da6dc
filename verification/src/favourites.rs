//! The favourites file: one theme name a line.
use vstd::prelude::*;

use crate::text::is_white;
use crate::text::law_piece_of_line;
use crate::text::law_pieces_of_lines;
use crate::text::law_trimmed;
use crate::text::lemma_filter_map_add;
use crate::text::lemma_pieces_append;
use crate::text::lemma_pieces_nonempty;
use crate::text::pieces;
use crate::text::texts;
use crate::text::trim;
use crate::text::trimmed;
use crate::text::trimmed_end;
use crate::text::trimmed_start;

verus! {

/// The name that a piece of the file holds, if it holds more than white space.
pub open spec fn name_of_piece() -> spec_fn(Seq<char>) -> Option<Seq<char>> {
    |piece: Seq<char>|
        if trimmed(piece).len() > 0 {
            Some(trimmed(piece))
        } else {
            None
        }
}

/// The names that the file lists, in file order: each line without the white space
/// around it, where anything is left.
pub open spec fn names_listed(content: Seq<char>) -> Seq<Seq<char>> {
    pieces(content).filter_map(name_of_piece())
}

/// The names joined by line feeds.
pub open spec fn joined(names: Seq<Seq<char>>) -> Seq<char>
    decreases names.len(),
{
    if names.len() == 0 {
        Seq::empty()
    } else if names.len() == 1 {
        names[0]
    } else {
        joined(names.drop_last()).push('\n') + names.last()
    }
}

/// What the file holds for these favourites.
pub open spec fn file_content(names: Seq<Seq<char>>) -> Seq<char> {
    joined(names).push('\n')
}

/// The favourites after `name` was toggled: its first occurrence taken out, or `name`
/// added at the end.
pub open spec fn toggled(names: Seq<Seq<char>>, name: Seq<char>) -> Seq<Seq<char>> {
    match names.index_of_first(name) {
        Some(i) => names.remove(i),
        None => names.push(name),
    }
}

/// Adds the name on a line to `names`, unless the line is blank.
fn take_line(names: &mut Vec<String>, line: &Vec<char>, Ghost(before): Ghost<Seq<Seq<char>>>)
    requires
        texts(old(names)@) == before.filter_map(name_of_piece()),
    ensures
        texts(final(names)@) == before.push(line@).filter_map(name_of_piece()),
{
    let name = trim(line);
    assert(before.push(line@).drop_last() =~= before);
    if !name.as_str().is_empty() {
        names.push(name);
        assert(texts(names@) =~= texts(old(names)@) + seq![name@]);
    }
}

/// Theme names listed in the text of a favourites file, in file order.
pub fn favourite_names(content: &str) -> (names: Vec<String>)
    ensures
        texts(names@) == names_listed(content@),
{
    let mut names: Vec<String> = Vec::new();
    let mut line: Vec<char> = Vec::new();
    assert(texts(names@) =~= Seq::empty());
    for c in it: content.chars()
        invariant
            it.seq() == content@,
            pieces(content@.take(it.index())).len() > 0,
            texts(names@) == pieces(content@.take(it.index())).drop_last().filter_map(
                name_of_piece(),
            ),
            line@ == pieces(content@.take(it.index())).last(),
    {
        let ghost i = it.index();
        assert(content@.take(i + 1).drop_last() =~= content@.take(i));
        let ghost before = pieces(content@.take(i));
        if c == '\n' {
            take_line(&mut names, &line, Ghost(before.drop_last()));
            assert(before.drop_last().push(line@) =~= before);
            line.clear();
            assert(before.push(Seq::empty()).drop_last() =~= before);
        } else {
            line.push(c);
            assert(before.drop_last().push(line@).drop_last() =~= before.drop_last());
        }
    }
    assert(content@.take(content@.len() as int) =~= content@);
    let ghost all = pieces(content@);
    take_line(&mut names, &line, Ghost(all.drop_last()));
    assert(all.drop_last().push(line@) =~= all);
    names
}

/// The text of the favourites file for these names.
pub fn favourites_file(names: &Vec<String>) -> (content: String)
    ensures
        content@ == file_content(texts(names@)),
{
    let mut content = String::new();
    let ghost all = texts(names@);
    let mut i: usize = 0;
    while i < names.len()
        invariant
            i <= names@.len(),
            all == texts(names@),
            content@ == joined(all.take(i as int)),
        decreases names@.len() - i,
    {
        if i > 0 {
            content.push('\n');
        }
        content.append(names[i].as_str());
        assert(all.take(i + 1).drop_last() =~= all.take(i as int));
        i = i + 1;
        assert(content@ =~= joined(all.take(i as int)));
    }
    assert(all.take(i as int) =~= all);
    content.push('\n');
    content
}

/// Where `name` first occurs in `names`.
fn position(names: &Vec<String>, name: &str) -> (found: Option<usize>)
    ensures
        match found {
            Some(i) => texts(names@).index_of_first(name@) == Some(i as int),
            None => texts(names@).index_of_first(name@) is None,
        },
        found matches Some(i) ==> i < names@.len(),
{
    let wanted = name.to_string();
    let ghost all = texts(names@);
    proof {
        all.index_of_first_ensures(name@);
    }
    let mut i: usize = 0;
    while i < names.len()
        invariant
            i <= names@.len(),
            wanted@ == name@,
            all == texts(names@),
            forall|j: int| 0 <= j < i ==> all[j] != name@,
        decreases names@.len() - i,
    {
        if names[i] == wanted {
            proof {
                all.index_of_first_ensures(name@);
                assert(all[i as int] == name@);
            }
            return Some(i);
        }
        assert(all[i as int] != name@);
        i = i + 1;
    }
    None
}

/// Whether `name` is among `names`.
pub fn lists(names: &Vec<String>, name: &str) -> (found: bool)
    ensures
        found == texts(names@).contains(name@),
{
    proof {
        texts(names@).index_of_first_ensures(name@);
    }
    position(names, name).is_some()
}

/// Takes note that `name` was added to the favourites or taken out of them, once the file
/// says so: where it was not `written`, nothing changes.
pub fn toggle_favourite(favourites: &mut Vec<String>, name: &str, written: bool)
    ensures
        texts(final(favourites)@) == if written {
            toggled(texts(old(favourites)@), name@)
        } else {
            texts(old(favourites)@)
        },
{
    if !written {
        return;
    }
    match position(favourites, name) {
        Some(i) => {
            let _ = favourites.remove(i);
            assert(texts(favourites@) =~= texts(old(favourites)@).remove(i as int));
        },
        None => {
            favourites.push(name.to_string());
            assert(texts(favourites@) =~= texts(old(favourites)@).push(name@));
        },
    }
}

fn copy_names(names: &Vec<String>) -> (copy: Vec<String>)
    ensures
        texts(copy@) == texts(names@),
{
    let mut copy: Vec<String> = Vec::new();
    let mut i: usize = 0;
    while i < names.len()
        invariant
            i <= names@.len(),
            texts(copy@) == texts(names@).take(i as int),
        decreases names@.len() - i,
    {
        let ghost before = copy@;
        copy.push(names[i].clone());
        assert(texts(copy@) =~= texts(before).push(names@[i as int]@));
        i = i + 1;
    }
    assert(texts(names@).take(i as int) =~= texts(names@));
    copy
}

/// The favourites with `name` added or taken out, and what the file is to hold for them.
/// Without a favourites file there is nothing to write.
pub fn planned_toggle(favourites: &Vec<String>, name: &str, has_file: bool) -> (plan: Option<
    (Vec<String>, String),
>)
    ensures
        plan is Some <==> has_file,
        plan matches Some((names, content)) ==> {
            &&& texts(names@) == toggled(texts(favourites@), name@)
            &&& content@ == file_content(toggled(texts(favourites@), name@))
        },
{
    if !has_file {
        return None;
    }
    let mut names = copy_names(favourites);
    toggle_favourite(&mut names, name, true);
    let content = favourites_file(&names);
    Some((names, content))
}

/// A name that a line of the file can hold: it is not empty, has no line feed, and no
/// white space at either end.
pub open spec fn storable(name: Seq<char>) -> bool {
    &&& name.len() > 0
    &&& !name.contains('\n')
    &&& trimmed(name) == name
}

pub open spec fn all_storable(names: Seq<Seq<char>>) -> bool {
    forall|i: int| 0 <= i < names.len() ==> storable(#[trigger] names[i])
}

proof fn lemma_joined_pieces(names: Seq<Seq<char>>)
    requires
        all_storable(names),
        names.len() > 0,
    ensures
        pieces(joined(names)) == names,
    decreases names.len(),
{
    let last = names.last();
    assert(storable(names[names.len() - 1]));
    if names.len() == 1 {
        lemma_pieces_append(Seq::empty(), last);
        assert(Seq::<char>::empty() + last =~= last);
        assert(pieces(Seq::<char>::empty()).drop_last().push(last) =~= names);
    } else {
        let before = names.drop_last();
        assert forall|i: int| 0 <= i < before.len() implies storable(#[trigger] before[i]) by {
            assert(storable(names[i]));
        }
        lemma_joined_pieces(before);
        let head = joined(before).push('\n');
        assert(head.drop_last() =~= joined(before));
        lemma_pieces_append(head, last);
        assert(pieces(head).drop_last() =~= before);
        assert(Seq::<char>::empty() + last =~= last);
        assert(before.push(last) =~= names);
    }
}

proof fn lemma_storable_kept(names: Seq<Seq<char>>)
    requires
        all_storable(names),
    ensures
        names.filter_map(name_of_piece()) == names,
    decreases names.len(),
{
    if names.len() > 0 {
        let before = names.drop_last();
        assert forall|i: int| 0 <= i < before.len() implies storable(#[trigger] before[i]) by {
            assert(storable(names[i]));
        }
        lemma_storable_kept(before);
        assert(storable(names[names.len() - 1]));
        assert(before + seq![names.last()] =~= names);
    } else {
        assert(names =~= Seq::empty());
    }
}

/// What is written to the favourites file is what is read back from it.
pub proof fn law_file_round_trip(names: Seq<Seq<char>>)
    requires
        all_storable(names),
    ensures
        names_listed(file_content(names)) == names,
{
    let content = file_content(names);
    assert(content.drop_last() =~= joined(names));
    lemma_storable_kept(names);
    let read = pieces(content);
    if names.len() > 0 {
        lemma_joined_pieces(names);
        assert(read.drop_last() =~= names);
    } else {
        assert(pieces(joined(names)) =~= seq![Seq::<char>::empty()]);
        assert(read.drop_last() =~= seq![Seq::<char>::empty()]);
        assert(read.drop_last().drop_last() =~= names);
        assert(read.drop_last().filter_map(name_of_piece()) =~= names);
    }
}

proof fn lemma_pieces_have_no_line_feed(s: Seq<char>, i: int)
    requires
        0 <= i < pieces(s).len(),
    ensures
        !pieces(s)[i].contains('\n'),
    decreases s.len(),
{
    if s.len() > 0 {
        let before = pieces(s.drop_last());
        lemma_pieces_nonempty(s.drop_last());
        if i < before.len() {
            lemma_pieces_have_no_line_feed(s.drop_last(), i);
            if i == before.len() - 1 && s.last() != '\n' {
                assert forall|k: int| 0 <= k < pieces(s)[i].len() implies pieces(s)[i][k]
                    != '\n' by {
                    if k < before.last().len() {
                        assert(before.last().contains(before.last()[k]));
                    }
                }
            }
        }
    }
}

proof fn lemma_trimmed_end(s: Seq<char>)
    ensures
        trimmed_end(s).len() <= s.len(),
        trimmed_end(s) == s.take(trimmed_end(s).len() as int),
        trimmed_end(trimmed_end(s)) == trimmed_end(s),
    decreases s.len(),
{
    if s.len() > 0 && is_white(s.last()) {
        lemma_trimmed_end(s.drop_last());
        let n = trimmed_end(s).len() as int;
        assert(s.drop_last().take(n) =~= s.take(n));
    } else {
        assert(s.take(s.len() as int) =~= s);
    }
}

proof fn lemma_trimmed_start(s: Seq<char>)
    ensures
        trimmed_start(s).len() <= s.len(),
        trimmed_start(s) == s.skip(s.len() - trimmed_start(s).len()),
        trimmed_start(s).len() > 0 ==> !is_white(trimmed_start(s).first()),
    decreases s.len(),
{
    if s.len() > 0 && is_white(s.first()) {
        lemma_trimmed_start(s.drop_first());
        let n = trimmed_start(s).len();
        assert(s.drop_first().skip(s.len() - 1 - n) =~= s.skip(s.len() - n));
    } else {
        assert(s.skip(0) =~= s);
    }
}

/// Whatever the favourites file holds, each name read from it can be stored in it again.
pub proof fn law_names_listed_storable(content: Seq<char>)
    ensures
        all_storable(names_listed(content)),
{
    let all = pieces(content);
    assert forall|i: int| 0 <= i < all.len() implies !(#[trigger] all[i]).contains('\n') by {
        lemma_pieces_have_no_line_feed(content, i);
    }
    lemma_kept_storable(all);
}

proof fn lemma_kept_storable(all: Seq<Seq<char>>)
    requires
        forall|i: int| 0 <= i < all.len() ==> !(#[trigger] all[i]).contains('\n'),
    ensures
        all_storable(all.filter_map(name_of_piece())),
    decreases all.len(),
{
    if all.len() > 0 {
        let before = all.drop_last();
        assert forall|i: int| 0 <= i < before.len() implies !(#[trigger] before[i]).contains(
            '\n',
        ) by {
            assert(!all[i].contains('\n'));
        }
        lemma_kept_storable(before);
        let piece = all.last();
        assert(!all[all.len() - 1].contains('\n'));
        lemma_trimmed_start(piece);
        let t = trimmed_start(piece);
        lemma_trimmed_end(t);
        let name = trimmed(piece);
        if name.len() > 0 {
            assert(name.first() == t.first());
            assert(trimmed_start(name) == name);
            assert forall|k: int| 0 <= k < name.len() implies name[k] != '\n' by {
                let skipped = piece.len() - t.len();
                assert(name[k] == t[k]);
                assert(t[k] == piece[skipped + k]);
                assert(piece.contains(piece[skipped + k]));
            }
            assert(storable(name));
        }
    }
}

/// Toggling a name twice changes nothing, unless it is a favourite already and stands
/// before the last one.
pub proof fn law_toggle_twice(names: Seq<Seq<char>>, name: Seq<char>)
    requires
        forall|i: int| 0 <= i < names.len() - 1 ==> #[trigger] names[i] != name,
    ensures
        toggled(toggled(names, name), name) == names,
{
    names.index_of_first_ensures(name);
    let after = toggled(names, name);
    after.index_of_first_ensures(name);
    match names.index_of_first(name) {
        Some(i) => {
            assert(i == names.len() - 1);
            assert(after =~= names.drop_last());
            if after.contains(name) {
                let k = choose|k: int| 0 <= k < after.len() && after[k] == name;
                assert(names[k] == name);
            }
            assert(after.push(name) =~= names);
        },
        None => {
            assert(after[names.len() as int] == name);
            let i = after.index_of_first(name)->0;
            if i < names.len() {
                assert(names[i] == name);
            }
            assert(after.remove(i) =~= names);
        },
    }
}

/// Toggling a name makes it a favourite exactly if it was none, unless it was listed more
/// than once.
pub proof fn law_toggle_flips(names: Seq<Seq<char>>, name: Seq<char>)
    requires
        forall|i: int, j: int|
            0 <= i < j < names.len() ==> !(names[i] == name && names[j] == name),
    ensures
        toggled(names, name).contains(name) == !names.contains(name),
{
    names.index_of_first_ensures(name);
    let after = toggled(names, name);
    match names.index_of_first(name) {
        Some(i) => {
            if after.contains(name) {
                let k = choose|k: int| 0 <= k < after.len() && after[k] == name;
                assert(names[if k < i { k } else { k + 1 }] == name);
                assert(names[i] == name);
            }
        },
        None => {
            assert(after[names.len() as int] == name);
        },
    }
}

/// Toggling a name leaves it as it was whether any other is a favourite.
pub proof fn law_toggle_keeps_others(names: Seq<Seq<char>>, name: Seq<char>, other: Seq<char>)
    requires
        other != name,
    ensures
        toggled(names, name).contains(other) == names.contains(other),
{
    names.index_of_first_ensures(name);
    let after = toggled(names, name);
    let taken: int = match names.index_of_first(name) {
        Some(i) => i,
        None => names.len() as int,
    };
    if names.contains(other) {
        let k = choose|k: int| 0 <= k < names.len() && names[k] == other;
        assert(after[if k < taken { k } else { k - 1 }] == other);
    }
    if after.contains(other) {
        let k = choose|k: int| 0 <= k < after.len() && after[k] == other;
        assert(names[if k < taken { k } else { k + 1 }] == other);
    }
}

/// Where no name is listed twice, none is after a name was toggled.
pub proof fn law_toggle_keeps_distinct(names: Seq<Seq<char>>, name: Seq<char>)
    requires
        names.no_duplicates(),
    ensures
        toggled(names, name).no_duplicates(),
{
    names.index_of_first_ensures(name);
}

/// Toggling a storable name keeps the favourites such that the file gives them back.
pub proof fn law_toggle_keeps_storable(names: Seq<Seq<char>>, name: Seq<char>)
    requires
        all_storable(names),
        storable(name),
    ensures
        all_storable(toggled(names, name)),
        names_listed(file_content(toggled(names, name))) == toggled(names, name),
{
    names.index_of_first_ensures(name);
    law_file_round_trip(toggled(names, name));
}

/// Favourites that are those in the file stay so when a name is toggled, whether or not the
/// file could be written; where it could not, it holds what it held.
pub proof fn law_toggle_in_sync(
    names: Seq<Seq<char>>,
    name: Seq<char>,
    content: Seq<char>,
    written: bool,
)
    requires
        names == names_listed(content),
        storable(name),
    ensures
        names_listed(
            if written {
                file_content(toggled(names, name))
            } else {
                content
            },
        ) == if written {
            toggled(names, name)
        } else {
            names
        },
{
    law_names_listed_storable(content);
    law_toggle_keeps_storable(names, name);
}

/// A file lists the names of its lines one after the other, whatever the lines hold: what
/// stands before a line feed and what stands behind it are read alone.
pub proof fn law_lines_read_alone(a: Seq<char>, b: Seq<char>)
    ensures
        names_listed(a.push('\n') + b) == names_listed(a) + names_listed(b),
{
    law_pieces_of_lines(a, b);
    lemma_filter_map_add(pieces(a), pieces(b), name_of_piece());
}

/// A line of nothing but white space lists no name. Any other lists one: what stands between
/// the white space at its ends.
pub proof fn law_line_read(line: Seq<char>, from: int, to: int)
    requires
        !line.contains('\n'),
        0 <= from <= to <= line.len(),
        forall|k: int| 0 <= k < from ==> is_white(#[trigger] line[k]),
        forall|k: int| to <= k < line.len() ==> is_white(#[trigger] line[k]),
        from < to ==> !is_white(line[from]) && !is_white(line[to - 1]),
    ensures
        names_listed(line) == if from < to {
            seq![line.subrange(from, to)]
        } else {
            Seq::empty()
        },
{
    law_piece_of_line(line);
    let (i, j) = law_trimmed(line);
    if from < to {
        if j <= i {
            assert(is_white(line[from]));
        }
        assert(i == from) by {
            if i < from {
                assert(is_white(line[i]));
            }
        }
        assert(j == to) by {
            if j < to {
                assert(is_white(line[to - 1]));
            } else if j > to {
                assert(is_white(line[j - 1]));
            }
        }
    } else if i < j {
        assert(is_white(line[i]));
    }
    assert(seq![line].drop_last() =~= Seq::empty());
    assert(seq![line].drop_last().filter_map(name_of_piece()) =~= Seq::empty());
    assert(names_listed(line) =~= if from < to {
        seq![line.subrange(from, to)]
    } else {
        Seq::empty()
    });
}

/// The file ends each favourite with a line feed, in their order; without any it is one
/// empty line.
pub proof fn law_file_lines(names: Seq<Seq<char>>, name: Seq<char>)
    ensures
        file_content(names.push(name)) == (if names.len() == 0 {
            Seq::empty()
        } else {
            file_content(names)
        }) + name.push('\n'),
        file_content(Seq::empty()) == seq!['\n'],
{
    let more = names.push(name);
    assert(more.drop_last() =~= names);
    assert(file_content(more) =~= (if names.len() == 0 {
        Seq::empty()
    } else {
        file_content(names)
    }) + name.push('\n'));
    assert(file_content(Seq::empty()) =~= seq!['\n']);
}

/// A name that is no favourite becomes the last of them, and the others stay before it.
pub proof fn law_toggle_adds(names: Seq<Seq<char>>, name: Seq<char>)
    requires
        forall|i: int| 0 <= i < names.len() ==> #[trigger] names[i] != name,
    ensures
        toggled(names, name).len() == names.len() + 1,
        toggled(names, name).last() == name,
        names.is_prefix_of(toggled(names, name)),
{
    names.index_of_first_ensures(name);
    assert(toggled(names, name).take(names.len() as int) =~= names);
}

/// Of a name that is a favourite the first occurrence goes; those before it stay where they
/// are, and those behind it move up.
pub proof fn law_toggle_takes_out(names: Seq<Seq<char>>, name: Seq<char>, at: int)
    requires
        0 <= at < names.len(),
        names[at] == name,
        forall|i: int| 0 <= i < at ==> #[trigger] names[i] != name,
    ensures
        toggled(names, name).len() == names.len() - 1,
        forall|i: int| 0 <= i < at ==> #[trigger] toggled(names, name)[i] == names[i],
        forall|i: int|
            at <= i < names.len() - 1 ==> #[trigger] toggled(names, name)[i] == names[i + 1],
{
    names.index_of_first_ensures(name);
    let first = names.index_of_first(name)->0;
    assert(names.contains(names[at]));
    if first < at {
        assert(names[first] != name);
    }
    assert(first == at);
}

} // verus!
