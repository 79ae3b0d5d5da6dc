//! Lists of themes: choosing, ordering and combining entries.
use vstd::prelude::*;
use vstd::seq_lib::to_multiset_len;
use vstd::seq_lib::to_multiset_remove;

use crate::favourites::lists;
use crate::text::lemma_filter_map_add;
use crate::text::lemma_filter_map_one;
use crate::text::texts;
use crate::theme::ThemeEntry;
use crate::theme::ThemeView;
use crate::theme::themes;

verus! {

/// `fastrand::shuffle` puts the items of a slice in a random order: each item stays in
/// the slice as often as it was there. Nothing is said of the order.
pub assume_specification<T>[ fastrand::shuffle::<T> ](slice: &mut [T])
    ensures
        final(slice)@.to_multiset() == old(slice)@.to_multiset(),
;

/// The themes that are light, or those that are not.
pub open spec fn of_lightness(light: bool) -> spec_fn(ThemeView) -> bool {
    |t: ThemeView| t.is_light == light
}

/// The themes whose name is listed.
pub open spec fn named_in(names: Seq<Seq<char>>) -> spec_fn(ThemeView) -> bool {
    |t: ThemeView| names.contains(t.name)
}

/// The themes of one rank.
pub open spec fn of_rank(rank: int) -> spec_fn(ThemeView) -> bool {
    |t: ThemeView| t.rank == rank
}

/// Some entry of the list stands for the theme of this rank.
pub open spec fn has_rank(list: Seq<ThemeView>, rank: int) -> bool {
    exists|i: int| 0 <= i < list.len() && (#[trigger] list[i]).rank == rank
}

/// The entries are sorted by rank.
pub open spec fn in_order(list: Seq<ThemeView>) -> bool {
    forall|i: int, j: int| 0 <= i < j < list.len() ==> list[i].rank <= list[j].rank
}

/// `sorted` holds the entries of `list` by rank, entries of the same theme in the order
/// that they had.
pub open spec fn is_sorting_of(sorted: Seq<ThemeView>, list: Seq<ThemeView>) -> bool {
    &&& in_order(sorted)
    &&& forall|rank: int|
        sorted.filter(of_rank(rank)) == #[trigger] list.filter(of_rank(rank))
}

/// `list` without the entries that repeat the theme of the entry before.
pub open spec fn without_repeats(list: Seq<ThemeView>) -> Seq<ThemeView>
    decreases list.len(),
{
    if list.len() < 2 {
        list
    } else {
        let before = without_repeats(list.drop_last());
        if list[list.len() - 2].rank == list.last().rank {
            before
        } else {
            before.push(list.last())
        }
    }
}

/// `list` with the entries of `found` behind it, leaving out each theme that is already
/// there.
pub open spec fn joined_new(list: Seq<ThemeView>, found: Seq<ThemeView>) -> Seq<ThemeView>
    decreases found.len(),
{
    if found.len() == 0 {
        list
    } else {
        let before = joined_new(list, found.drop_last());
        if has_rank(before, found.last().rank) {
            before
        } else {
            before.push(found.last())
        }
    }
}

/// The entry as a theme, if there is one.
pub open spec fn optional_theme(entry: Option<ThemeEntry>) -> Option<ThemeView> {
    match entry {
        Some(e) => Some(e@),
        None => None,
    }
}

/// The theme that a result holds.
pub open spec fn theme_of_result() -> spec_fn(Option<ThemeEntry>) -> Option<ThemeView> {
    |r: Option<ThemeEntry>| optional_theme(r)
}

/// The themes that a list of results holds.
pub open spec fn found_themes(results: Seq<Option<ThemeEntry>>) -> Seq<ThemeView> {
    results.filter_map(theme_of_result())
}

proof fn lemma_themes_push(list: Seq<ThemeEntry>, entry: ThemeEntry)
    ensures
        themes(list.push(entry)) == themes(list).push(entry@),
{
    assert(themes(list.push(entry)) =~= themes(list).push(entry@));
}

/// A copy of a list.
pub fn copy_list(list: &Vec<ThemeEntry>) -> (copy: Vec<ThemeEntry>)
    ensures
        themes(copy@) == themes(list@),
{
    let mut copy: Vec<ThemeEntry> = Vec::new();
    let mut i: usize = 0;
    while i < list.len()
        invariant
            i <= list@.len(),
            themes(copy@) == themes(list@).take(i as int),
        decreases list@.len() - i,
    {
        let ghost before = copy@;
        copy.push(list[i].clone());
        i = i + 1;
        assert(themes(copy@) =~= themes(before).push(themes(list@)[i - 1]));
        assert(themes(copy@) =~= themes(list@).take(i as int));
    }
    assert(themes(list@).take(i as int) =~= themes(list@));
    copy
}

/// The light entries of a list, or the dark ones, in order.
pub fn only(list: Vec<ThemeEntry>, light: bool) -> (kept: Vec<ThemeEntry>)
    ensures
        themes(kept@) == themes(list@).filter(of_lightness(light)),
{
    let mut kept: Vec<ThemeEntry> = Vec::new();
    let ghost all = themes(list@);
    assert(themes(kept@) =~= all.take(0).filter(of_lightness(light))) by {
        reveal(Seq::filter);
    }
    for entry in it: list
        invariant
            themes(it.seq()) == all,
            all == themes(list@),
            themes(kept@) == all.take(it.index()).filter(of_lightness(light)),
    {
        let ghost before = kept@;
        proof {
            assert(entry@ == all[it.index()]);
            assert(all.take(it.index() + 1) =~= all.take(it.index()).push(entry@));
            all.take(it.index()).lemma_filter_push(entry@, of_lightness(light));
            lemma_themes_push(before, entry);
        }
        if entry.is_light == light {
            kept.push(entry);
        }
    }
    assert(all.take(all.len() as int) =~= all);
    kept
}

/// The entries of the catalogue whose names are listed, in the catalogue's order.
pub fn select_named(catalogue: &Vec<ThemeEntry>, names: &Vec<String>) -> (kept: Vec<ThemeEntry>)
    ensures
        themes(kept@) == themes(catalogue@).filter(named_in(texts(names@))),
{
    let mut kept: Vec<ThemeEntry> = Vec::new();
    let ghost all = themes(catalogue@);
    let ghost wanted = named_in(texts(names@));
    assert(themes(kept@) =~= all.take(0).filter(wanted)) by {
        reveal(Seq::filter);
    }
    let mut i: usize = 0;
    while i < catalogue.len()
        invariant
            i <= catalogue@.len(),
            all == themes(catalogue@),
            wanted == named_in(texts(names@)),
            themes(kept@) == all.take(i as int).filter(wanted),
        decreases catalogue@.len() - i,
    {
        let entry = &catalogue[i];
        let ghost before = kept@;
        proof {
            assert(entry@ == all[i as int]);
            assert(all.take(i + 1) =~= all.take(i as int).push(entry@));
            all.take(i as int).lemma_filter_push(entry@, wanted);
        }
        if lists(names, entry.name.as_str()) {
            kept.push(entry.clone());
            assert(themes(kept@) =~= themes(before).push(entry@));
        }
        i = i + 1;
    }
    assert(all.take(i as int) =~= all);
    kept
}

/// Where the first theme of this name stands.
pub open spec fn first_named(list: Seq<ThemeView>, name: Seq<char>) -> Option<int> {
    list.map_values(|t: ThemeView| t.name).index_of_first(name)
}

/// Where the first entry of this name stands in the list.
pub fn find_named(list: &Vec<ThemeEntry>, name: &String) -> (found: Option<usize>)
    ensures
        match found {
            Some(i) => i < list@.len() && first_named(themes(list@), name@) == Some(i as int),
            None => first_named(themes(list@), name@) is None,
        },
{
    let ghost all = themes(list@).map_values(|t: ThemeView| t.name);
    proof {
        all.index_of_first_ensures(name@);
    }
    let mut i: usize = 0;
    while i < list.len()
        invariant
            i <= list@.len(),
            all == themes(list@).map_values(|t: ThemeView| t.name),
            forall|j: int| 0 <= j < i ==> all[j] != name@,
        decreases list@.len() - i,
    {
        if list[i].name == *name {
            proof {
                all.index_of_first_ensures(name@);
                assert(all[i as int] == name@);
            }
            return Some(i);
        }
        assert(all[i as int] != name@);
        i = i + 1;
    }
    None
}

/// Puts the list in the opposite order.
pub fn reverse(list: &mut Vec<ThemeEntry>)
    ensures
        themes(final(list)@) == themes(old(list)@).reverse(),
{
    let ghost all = list@;
    let mut reversed: Vec<ThemeEntry> = Vec::new();
    loop
        invariant
            reversed@.len() + list@.len() == all.len(),
            list@ == all.take(list@.len() as int),
            reversed@ == all.skip(list@.len() as int).reverse(),
        ensures
            list@.len() == 0,
            reversed@.len() == all.len(),
            reversed@ == all.skip(0).reverse(),
        decreases list@.len(),
    {
        match list.pop() {
            Some(entry) => {
                reversed.push(entry);
                assert(reversed@ =~= all.skip(list@.len() as int).reverse());
            },
            None => {
                break;
            },
        }
    }
    *list = reversed;
    assert(themes(list@) =~= themes(all).reverse());
}

/// Takes all entries out of a list.
pub fn take_list(list: &mut Vec<ThemeEntry>) -> (taken: Vec<ThemeEntry>)
    ensures
        taken@ == old(list)@,
        final(list)@ == Seq::<ThemeEntry>::empty(),
{
    let mut taken: Vec<ThemeEntry> = Vec::new();
    std::mem::swap(list, &mut taken);
    taken
}

/// An entry goes into an ordered list behind all that do not come after it.
proof fn lemma_insert_in_order(list: Seq<ThemeView>, t: ThemeView, at: int)
    requires
        in_order(list),
        0 <= at <= list.len(),
        forall|i: int| 0 <= i < at ==> (#[trigger] list[i]).rank <= t.rank,
        forall|i: int| at <= i < list.len() ==> t.rank < (#[trigger] list[i]).rank,
    ensures
        in_order(list.insert(at, t)),
        forall|rank: int|
            #![trigger of_rank(rank)]
            list.insert(at, t).filter(of_rank(rank)) == list.push(t).filter(of_rank(rank)),
{
    let longer = list.insert(at, t);
    assert forall|rank: int|
        #![trigger of_rank(rank)]
        longer.filter(of_rank(rank)) == list.push(t).filter(of_rank(rank)) by {
        let p = of_rank(rank);
        let head = list.take(at);
        let tail = list.skip(at);
        assert(longer =~= head.push(t) + tail);
        assert(list =~= head + tail);
        Seq::filter_distributes_over_add(head.push(t), tail, p);
        Seq::filter_distributes_over_add(head, tail, p);
        head.lemma_filter_push(t, p);
        list.lemma_filter_push(t, p);
        if rank == t.rank {
            lemma_filter_nothing(tail, p);
            assert(head.filter(p) + Seq::<ThemeView>::empty() =~= head.filter(p));
            assert(head.filter(p).push(t) + Seq::<ThemeView>::empty() =~= head.filter(p).push(t));
        }
    }
}

proof fn lemma_filter_nothing(list: Seq<ThemeView>, p: spec_fn(ThemeView) -> bool)
    requires
        forall|i: int| 0 <= i < list.len() ==> !p(#[trigger] list[i]),
    ensures
        list.filter(p) == Seq::<ThemeView>::empty(),
    decreases list.len(),
{
    reveal(Seq::filter);
    if list.len() > 0 {
        assert(!p(list[list.len() - 1]));
        assert forall|i: int| 0 <= i < list.len() - 1 implies !p(
            #[trigger] list.drop_last()[i],
        ) by {
            assert(!p(list[i]));
        }
        lemma_filter_nothing(list.drop_last(), p);
    } else {
        assert(list =~= Seq::empty());
    }
}

/// Sorts the list by rank.
pub fn sort(list: &mut Vec<ThemeEntry>)
    ensures
        is_sorting_of(themes(final(list)@), themes(old(list)@)),
{
    let ghost all = themes(list@);
    let mut sorted: Vec<ThemeEntry> = Vec::new();
    let unsorted = take_list(list);
    assert(all.take(0) =~= themes(sorted@));
    for entry in it: unsorted
        invariant
            themes(it.seq()) == all,
            all == themes(unsorted@),
            is_sorting_of(themes(sorted@), all.take(it.index())),
    {
        let ghost before = themes(sorted@);
        let ghost done = all.take(it.index());
        let mut at: usize = sorted.len();
        while at > 0 && entry.rank < sorted[at - 1].rank
            invariant
                at <= sorted@.len(),
                before == themes(sorted@),
                in_order(before),
                forall|i: int| at <= i < before.len() ==> entry.rank < (#[trigger] before[i]).rank,
            decreases at,
        {
            at = at - 1;
            assert(before[at as int] == sorted@[at as int]@);
        }
        proof {
            assert(entry@ == all[it.index()]);
            assert(all.take(it.index() + 1) =~= done.push(entry@));
            assert forall|i: int| 0 <= i < at implies (#[trigger] before[i]).rank
                <= entry@.rank by {
                assert(before[at - 1] == sorted@[at - 1]@);
            }
            lemma_insert_in_order(before, entry@, at as int);
            assert forall|rank: int| before.push(entry@).filter(of_rank(rank))
                == #[trigger] done.push(entry@).filter(of_rank(rank)) by {
                before.lemma_filter_push(entry@, of_rank(rank));
                done.lemma_filter_push(entry@, of_rank(rank));
                assert(before.filter(of_rank(rank)) == done.filter(of_rank(rank)));
            }
        }
        sorted.insert(at, entry);
        assert(themes(sorted@) =~= before.insert(at as int, entry@));
    }
    assert(all.take(all.len() as int) =~= all);
    *list = sorted;
}

/// Leaves out each entry that repeats the theme of the entry before.
pub fn dedup(list: &mut Vec<ThemeEntry>)
    ensures
        themes(final(list)@) == without_repeats(themes(old(list)@)),
{
    let ghost all = themes(list@);
    let mut kept: Vec<ThemeEntry> = Vec::new();
    let mut last: Option<usize> = None;
    let repeating = take_list(list);
    assert(themes(kept@) =~= without_repeats(all.take(0)));
    for entry in it: repeating
        invariant
            themes(it.seq()) == all,
            all == themes(repeating@),
            themes(kept@) == without_repeats(all.take(it.index())),
            it.index() == 0 ==> last is None && kept@.len() == 0,
            it.index() > 0 ==> (last matches Some(rank) && rank == all[it.index() - 1].rank),
    {
        let ghost before = kept@;
        proof {
            assert(entry@ == all[it.index()]);
            assert(all.take(it.index() + 1).drop_last() =~= all.take(it.index()));
            lemma_themes_push(before, entry);
        }
        let repeats = match last {
            Some(rank) => rank == entry.rank,
            None => false,
        };
        last = Some(entry.rank);
        if !repeats {
            kept.push(entry);
        }
        assert(it.index() == 0 ==> themes(kept@) =~= all.take(1));
    }
    assert(all.take(all.len() as int) =~= all);
    *list = kept;
}

/// Whether the theme of this rank is in the list.
fn contains_rank(list: &Vec<ThemeEntry>, rank: usize) -> (found: bool)
    ensures
        found == has_rank(themes(list@), rank as int),
{
    let ghost all = themes(list@);
    let mut i: usize = 0;
    while i < list.len()
        invariant
            i <= list@.len(),
            all == themes(list@),
            forall|j: int| 0 <= j < i ==> (#[trigger] all[j]).rank != rank,
        decreases list@.len() - i,
    {
        if list[i].rank == rank {
            assert(all[i as int].rank == rank);
            return true;
        }
        assert(all[i as int] == list@[i as int]@);
        i = i + 1;
    }
    false
}

/// Appends the entries of `found` whose theme is not yet in the list.
pub fn join_new(list: &mut Vec<ThemeEntry>, found: Vec<ThemeEntry>)
    ensures
        themes(final(list)@) == joined_new(themes(old(list)@), themes(found@)),
{
    let ghost start = themes(list@);
    let ghost all = themes(found@);
    for entry in it: found
        invariant
            themes(it.seq()) == all,
            all == themes(found@),
            start == themes(old(list)@),
            themes(list@) == joined_new(start, all.take(it.index())),
    {
        let ghost before = list@;
        proof {
            assert(entry@ == all[it.index()]);
            assert(all.take(it.index() + 1).drop_last() =~= all.take(it.index()));
            lemma_themes_push(before, entry);
        }
        if !contains_rank(list, entry.rank) {
            list.push(entry);
        }
    }
    assert(all.take(all.len() as int) =~= all);
}

/// The entries that these results hold, in order.
pub fn collect_found(results: Vec<Option<ThemeEntry>>) -> (found: Vec<ThemeEntry>)
    ensures
        themes(found@) == found_themes(results@),
{
    let mut found: Vec<ThemeEntry> = Vec::new();
    let ghost all = results@;
    assert(themes(found@) =~= found_themes(all.take(0)));
    for result in it: results
        invariant
            it.seq() == all,
            all == results@,
            themes(found@) == found_themes(all.take(it.index())),
    {
        let ghost before = found@;
        assert(all.take(it.index() + 1).drop_last() =~= all.take(it.index()));
        if let Some(entry) = result {
            found.push(entry);
            assert(themes(found@) =~= themes(before) + seq![entry@]);
        }
    }
    assert(all.take(all.len() as int) =~= all);
    found
}

/// Lists with the same entries stand for the same themes.
proof fn lemma_themes_multiset(a: Seq<ThemeEntry>, b: Seq<ThemeEntry>)
    requires
        a.to_multiset() == b.to_multiset(),
    ensures
        themes(a).to_multiset() == themes(b).to_multiset(),
    decreases a.len(),
{
    broadcast use vstd::seq_lib::group_to_multiset_ensures;

    to_multiset_len(a);
    to_multiset_len(b);
    if a.len() == 0 {
        assert(themes(a) =~= themes(b));
    } else {
        let x = a.last();
        assert(a.contains(x));
        assert(b.to_multiset().count(x) > 0);
        assert(b.contains(x));
        let j = choose|j: int| 0 <= j < b.len() && b[j] == x;
        to_multiset_remove(a, a.len() - 1);
        to_multiset_remove(b, j);
        assert(a.remove(a.len() - 1) =~= a.drop_last());
        lemma_themes_multiset(a.drop_last(), b.remove(j));
        to_multiset_remove(themes(a), a.len() - 1);
        to_multiset_remove(themes(b), j);
        assert(themes(a).remove(a.len() - 1) =~= themes(a.drop_last()));
        assert(themes(b).remove(j) =~= themes(b.remove(j)));
        assert(themes(a)[a.len() - 1] == x@ && themes(b)[j] == x@);
        assert(themes(a).contains(x@) && themes(b).contains(x@));
        assert(themes(a).to_multiset() =~= themes(a).to_multiset().remove(x@).insert(x@));
        assert(themes(b).to_multiset() =~= themes(b).to_multiset().remove(x@).insert(x@));
    }
}

/// Puts the list in a random order.
pub fn shuffle_list(list: &mut Vec<ThemeEntry>)
    ensures
        themes(final(list)@).to_multiset() == themes(old(list)@).to_multiset(),
{
    fastrand::shuffle(list.as_mut_slice());
    proof {
        lemma_themes_multiset(list@, old(list)@);
    }
}

/// No theme occurs twice.
pub open spec fn distinct(list: Seq<ThemeView>) -> bool {
    forall|i: int, j: int| 0 <= i < j < list.len() ==> list[i].rank != list[j].rank
}

/// Each entry of one list is also in the other.
pub open spec fn drawn_from(part: Seq<ThemeView>, whole: Seq<ThemeView>) -> bool {
    forall|i: int| 0 <= i < part.len() ==> whole.contains(#[trigger] part[i])
}

/// A list with new entries joined to it begins as before; what is behind comes from the
/// new entries; every theme of either is in it; and no theme comes to occur twice.
pub proof fn law_joined_new(list: Seq<ThemeView>, found: Seq<ThemeView>)
    ensures
        list.is_prefix_of(joined_new(list, found)),
        drawn_from(joined_new(list, found).skip(list.len() as int), found),
        forall|i: int|
            0 <= i < found.len() ==> has_rank(
                joined_new(list, found),
                (#[trigger] found[i]).rank,
            ),
        distinct(list) ==> distinct(joined_new(list, found)),
    decreases found.len(),
{
    let all = joined_new(list, found);
    if found.len() > 0 {
        let less = found.drop_last();
        let before = joined_new(list, less);
        law_joined_new(list, less);
        let t = found.last();
        assert forall|i: int| 0 <= i < all.len() - list.len() implies found.contains(
            #[trigger] all.skip(list.len() as int)[i],
        ) by {
            if list.len() + i < before.len() {
                assert(all.skip(list.len() as int)[i] == before.skip(list.len() as int)[i]);
                assert(less.contains(before.skip(list.len() as int)[i]));
                let k = choose|k: int|
                    0 <= k < less.len() && less[k] == before.skip(list.len() as int)[i];
                assert(found[k] == less[k]);
            } else {
                assert(found[found.len() - 1] == t);
            }
        }
        assert forall|i: int| 0 <= i < found.len() implies has_rank(
            all,
            (#[trigger] found[i]).rank,
        ) by {
            if i < less.len() {
                assert(has_rank(before, less[i].rank));
                let k = choose|k: int|
                    0 <= k < before.len() && (#[trigger] before[k]).rank == less[i].rank;
                assert(all[k].rank == found[i].rank);
            } else if !has_rank(before, t.rank) {
                assert(all[before.len() as int].rank == t.rank);
            }
        }
        if distinct(list) && !has_rank(before, t.rank) {
            assert forall|i: int, j: int| 0 <= i < j < all.len() implies all[i].rank
                != all[j].rank by {
                assert(all[i] == before[i]);
                if j < before.len() {
                    assert(all[j] == before[j]);
                }
            }
        }
    }
}

/// No entry stands for the theme of the entry before it.
pub open spec fn no_repeats(list: Seq<ThemeView>) -> bool {
    forall|i: int, j: int| 0 <= i && j == i + 1 && j < list.len() ==> list[i].rank != list[j].rank
}

/// Without repeats, no entry stands for the theme of the entry before it, the first and
/// the last theme are the same as with them, and no theme is lost.
pub proof fn law_without_repeats(list: Seq<ThemeView>)
    ensures
        no_repeats(without_repeats(list)),
        without_repeats(list).len() <= list.len(),
        list.len() > 0 ==> {
            &&& without_repeats(list).len() > 0
            &&& without_repeats(list).first() == list.first()
            &&& without_repeats(list).last().rank == list.last().rank
        },
        forall|i: int|
            0 <= i < list.len() ==> has_rank(without_repeats(list), (#[trigger] list[i]).rank),
        drawn_from(without_repeats(list), list),
    decreases list.len(),
{
    let all = without_repeats(list);
    if list.len() >= 2 {
        let less = list.drop_last();
        let before = without_repeats(less);
        law_without_repeats(less);
        assert forall|i: int| 0 <= i < list.len() implies has_rank(
            all,
            (#[trigger] list[i]).rank,
        ) by {
            if i < less.len() {
                assert(has_rank(before, less[i].rank));
                let k = choose|k: int|
                    0 <= k < before.len() && (#[trigger] before[k]).rank == less[i].rank;
                assert(all[k].rank == list[i].rank);
            } else {
                assert(all[all.len() - 1].rank == list[i].rank);
            }
        }
        assert forall|i: int| 0 <= i < all.len() implies list.contains(#[trigger] all[i]) by {
            if i < before.len() {
                assert(less.contains(before[i]));
                let k = choose|k: int| 0 <= k < less.len() && less[k] == before[i];
                assert(list[k] == all[i]);
            } else {
                assert(list[list.len() - 1] == all[i]);
            }
        }
    } else {
        assert forall|i: int| 0 <= i < list.len() implies has_rank(
            all,
            (#[trigger] list[i]).rank,
        ) by {
            assert(all[i].rank == list[i].rank);
        }
    }
}

/// There is only one way to put a list in order.
pub proof fn law_sorting_unique(a: Seq<ThemeView>, b: Seq<ThemeView>, list: Seq<ThemeView>)
    requires
        is_sorting_of(a, list),
        is_sorting_of(b, list),
    ensures
        a == b,
{
    assert forall|rank: int|
        a.filter(of_rank(rank)) == #[trigger] b.filter(of_rank(rank)) by {
        assert(a.filter(of_rank(rank)) == list.filter(of_rank(rank)));
    }
    lemma_same_ranks_same_list(a, b);
}

proof fn lemma_same_ranks_same_list(a: Seq<ThemeView>, b: Seq<ThemeView>)
    requires
        in_order(a),
        in_order(b),
        forall|rank: int| a.filter(of_rank(rank)) == #[trigger] b.filter(of_rank(rank)),
    ensures
        a == b,
    decreases a.len(),
{
    reveal(Seq::filter);
    if a.len() > 0 && b.len() > 0 {
        let x = a.last();
        let y = b.last();
        if x.rank > y.rank {
            lemma_filter_nothing(b, of_rank(x.rank));
            assert(a.filter(of_rank(x.rank)) == b.filter(of_rank(x.rank)));
            assert(a.filter(of_rank(x.rank)).len() > 0);
        } else if x.rank < y.rank {
            lemma_filter_nothing(a, of_rank(y.rank));
            assert(a.filter(of_rank(y.rank)) == b.filter(of_rank(y.rank)));
            assert(b.filter(of_rank(y.rank)).len() > 0);
        }
        let p = of_rank(x.rank);
        assert(a.filter(p) == b.filter(p));
        assert(a.filter(p).last() == x && b.filter(p).last() == y);
        assert forall|rank: int| a.drop_last().filter(of_rank(rank))
            == #[trigger] b.drop_last().filter(of_rank(rank)) by {
            assert(a.filter(of_rank(rank)) == b.filter(of_rank(rank)));
            if rank == x.rank {
                assert(a.filter(p).drop_last() =~= a.drop_last().filter(p));
                assert(b.filter(p).drop_last() =~= b.drop_last().filter(p));
            }
        }
        lemma_same_ranks_same_list(a.drop_last(), b.drop_last());
        assert(a =~= a.drop_last().push(x));
        assert(b =~= b.drop_last().push(y));
    } else if a.len() > 0 {
        let p = of_rank(a.last().rank);
        assert(a.filter(p) == b.filter(p));
        assert(a.filter(p).len() > 0);
    } else if b.len() > 0 {
        let p = of_rank(b.last().rank);
        assert(a.filter(p) == b.filter(p));
        assert(b.filter(p).len() > 0);
    } else {
        assert(a =~= b);
    }
}

/// A list that is in order stays as it is.
pub proof fn law_sorting_ordered(sorted: Seq<ThemeView>, list: Seq<ThemeView>)
    requires
        in_order(list),
        is_sorting_of(sorted, list),
    ensures
        sorted == list,
{
    law_sorting_unique(sorted, list, list);
}

proof fn lemma_count_of_rank(list: Seq<ThemeView>, t: ThemeView)
    ensures
        list.to_multiset().count(t) == list.filter(of_rank(t.rank)).to_multiset().count(t),
    decreases list.len(),
{
    reveal(Seq::filter);
    broadcast use vstd::seq_lib::group_to_multiset_ensures;

    if list.len() > 0 {
        lemma_count_of_rank(list.drop_last(), t);
        assert(list =~= list.drop_last().push(list.last()));
    }
}

/// Putting a list in order loses nothing and adds nothing.
pub proof fn law_sorting_keeps_themes(sorted: Seq<ThemeView>, list: Seq<ThemeView>)
    requires
        is_sorting_of(sorted, list),
    ensures
        sorted.to_multiset() == list.to_multiset(),
        sorted.len() == list.len(),
{
    assert forall|t: ThemeView| #[trigger]
        sorted.to_multiset().count(t) == list.to_multiset().count(t) by {
        lemma_count_of_rank(sorted, t);
        lemma_count_of_rank(list, t);
        assert(sorted.filter(of_rank(t.rank)) == list.filter(of_rank(t.rank)));
    }
    assert(sorted.to_multiset() =~= list.to_multiset());
    to_multiset_len(sorted);
    to_multiset_len(list);
}

/// Reversing twice gives the list back.
pub proof fn law_reverse_twice(list: Seq<ThemeView>)
    ensures
        list.reverse().reverse() == list,
{
    assert(list.reverse().reverse() =~= list);
}

/// What is left of a list has the lightness asked for, asking again changes nothing, and
/// asking for the other lightness then leaves nothing.
pub proof fn law_lightness(list: Seq<ThemeView>, light: bool)
    ensures
        forall|i: int|
            0 <= i < list.filter(of_lightness(light)).len() ==> (#[trigger] list.filter(
                of_lightness(light),
            )[i]).is_light == light,
        list.filter(of_lightness(light)).filter(of_lightness(light)) == list.filter(
            of_lightness(light),
        ),
        list.filter(of_lightness(light)).filter(of_lightness(!light)).len() == 0,
{
    let kept = list.filter(of_lightness(light));
    assert forall|i: int| 0 <= i < kept.len() implies (#[trigger] kept[i]).is_light == light by {
        list.lemma_filter_pred(of_lightness(light), i);
    }
    lemma_filter_all(kept, of_lightness(light));
    lemma_filter_nothing(kept, of_lightness(!light));
}

proof fn lemma_filter_all(list: Seq<ThemeView>, p: spec_fn(ThemeView) -> bool)
    requires
        forall|i: int| 0 <= i < list.len() ==> p(#[trigger] list[i]),
    ensures
        list.filter(p) == list,
    decreases list.len(),
{
    reveal(Seq::filter);
    if list.len() > 0 {
        assert(p(list[list.len() - 1]));
        assert forall|i: int| 0 <= i < list.len() - 1 implies p(
            #[trigger] list.drop_last()[i],
        ) by {
            assert(p(list[i]));
        }
        lemma_filter_all(list.drop_last(), p);
        assert(list.drop_last().push(list.last()) =~= list);
    }
}

/// In `list` the theme of rank `a` occurs before the theme of rank `b` does.
pub open spec fn occurs_before(list: Seq<ThemeView>, a: int, b: int) -> bool {
    exists|p: int|
        0 <= p < list.len() && (#[trigger] list[p]).rank == a && forall|q: int|
            0 <= q < list.len() && (#[trigger] list[q]).rank == b ==> p < q
}

/// `t` is the first entry of `list` that stands for its theme.
pub open spec fn is_first_entry(list: Seq<ThemeView>, t: ThemeView) -> bool {
    exists|p: int|
        0 <= p < list.len() && #[trigger] list[p] == t && forall|q: int|
            0 <= q < p ==> (#[trigger] list[q]).rank != t.rank
}

/// The ranks of a list, in order.
pub open spec fn ranks(list: Seq<ThemeView>) -> Seq<int> {
    list.map_values(|t: ThemeView| t.rank)
}

/// Each theme of `all` is in `list`.
#[verifier::opaque]
pub open spec fn covers(list: Seq<ThemeView>, all: Seq<ThemeView>) -> bool {
    forall|k: int| 0 <= k < all.len() ==> ranks(list).contains((#[trigger] all[k]).rank)
}

/// From `start` on, each entry of `list` is the first in `all` that stands for its theme.
#[verifier::opaque]
pub open spec fn first_entries(list: Seq<ThemeView>, start: int, all: Seq<ThemeView>) -> bool {
    forall|j: int| start <= j < list.len() ==> is_first_entry(all, #[trigger] list[j])
}

/// From `start` on, each entry of `list` stands for another theme than those before it, and
/// for one that comes later in `all` than theirs.
#[verifier::opaque]
pub open spec fn in_first_order(list: Seq<ThemeView>, start: int, all: Seq<ThemeView>) -> bool {
    forall|i: int, j: int|
        0 <= i < j < list.len() && start <= j ==> occurs_before(
            all,
            (#[trigger] list[i]).rank,
            (#[trigger] list[j]).rank,
        )
}

/// Each entry of `list` is in `all`.
#[verifier::opaque]
pub open spec fn within(list: Seq<ThemeView>, all: Seq<ThemeView>) -> bool {
    forall|j: int| 0 <= j < list.len() ==> all.contains(#[trigger] list[j])
}

proof fn lemma_covers_more(
    list: Seq<ThemeView>,
    all: Seq<ThemeView>,
    res: Seq<ThemeView>,
    t: ThemeView,
)
    requires
        covers(list, all),
        list.is_prefix_of(res),
        has_rank(res, t.rank),
    ensures
        covers(res, all.push(t)),
{
    reveal(covers);
    let more = all.push(t);
    assert forall|k: int| 0 <= k < more.len() implies ranks(res).contains(
        (#[trigger] more[k]).rank,
    ) by {
        if k < all.len() {
            assert(more[k] == all[k]);
            assert(ranks(list).contains(all[k].rank));
            let i = choose|i: int| 0 <= i < list.len() && ranks(list)[i] == all[k].rank;
            assert(ranks(res)[i] == all[k].rank);
        } else {
            let i = choose|i: int| 0 <= i < res.len() && (#[trigger] res[i]).rank == t.rank;
            assert(ranks(res)[i] == t.rank);
        }
    }
}

proof fn lemma_covers_itself(list: Seq<ThemeView>)
    ensures
        covers(list, list),
{
    reveal(covers);
    assert forall|k: int| 0 <= k < list.len() implies ranks(list).contains(
        (#[trigger] list[k]).rank,
    ) by {
        assert(ranks(list)[k] == list[k].rank);
    }
}

/// A theme that is missing where all themes of `all` are is not in `all`.
proof fn lemma_new_theme(list: Seq<ThemeView>, all: Seq<ThemeView>, t: ThemeView)
    requires
        covers(list, all),
        !has_rank(list, t.rank),
    ensures
        forall|k: int| 0 <= k < all.len() ==> (#[trigger] all[k]).rank != t.rank,
{
    reveal(covers);
    assert forall|k: int| 0 <= k < all.len() implies (#[trigger] all[k]).rank != t.rank by {
        assert(ranks(list).contains(all[k].rank));
        let i = choose|i: int| 0 <= i < list.len() && ranks(list)[i] == all[k].rank;
        assert(list[i].rank == all[k].rank);
    }
}

proof fn lemma_within_more(list: Seq<ThemeView>, all: Seq<ThemeView>, t: ThemeView)
    requires
        within(list, all),
    ensures
        within(list, all.push(t)),
        within(list.push(t), all.push(t)),
{
    reveal(within);
    let more = all.push(t);
    let longer = list.push(t);
    assert forall|j: int| 0 <= j < longer.len() implies more.contains(#[trigger] longer[j]) by {
        if j < list.len() {
            assert(all.contains(list[j]));
            let p = choose|p: int| 0 <= p < all.len() && all[p] == list[j];
            assert(more[p] == longer[j]);
        } else {
            assert(more[all.len() as int] == t);
        }
    }
    assert forall|j: int| 0 <= j < list.len() implies more.contains(#[trigger] list[j]) by {
        assert(longer[j] == list[j]);
    }
}

proof fn lemma_first_entry_more(all: Seq<ThemeView>, u: ThemeView, t: ThemeView)
    requires
        is_first_entry(all, u),
    ensures
        is_first_entry(all.push(t), u),
{
    let more = all.push(t);
    let p = choose|p: int|
        0 <= p < all.len() && #[trigger] all[p] == u && forall|q: int|
            0 <= q < p ==> (#[trigger] all[q]).rank != u.rank;
    assert(more[p] == u);
    assert forall|q: int| 0 <= q < p implies (#[trigger] more[q]).rank != u.rank by {
        assert(more[q] == all[q]);
    }
}

proof fn lemma_occurs_before_more(all: Seq<ThemeView>, a: int, b: int, t: ThemeView)
    requires
        occurs_before(all, a, b),
    ensures
        occurs_before(all.push(t), a, b),
{
    let more = all.push(t);
    let p = choose|p: int|
        0 <= p < all.len() && (#[trigger] all[p]).rank == a && forall|q: int|
            0 <= q < all.len() && (#[trigger] all[q]).rank == b ==> p < q;
    assert(more[p].rank == a);
    assert forall|q: int| 0 <= q < more.len() && (#[trigger] more[q]).rank == b implies p < q by {
        if q < all.len() {
            assert(more[q] == all[q]);
        }
    }
}

proof fn lemma_order_more(list: Seq<ThemeView>, start: int, all: Seq<ThemeView>, t: ThemeView)
    requires
        first_entries(list, start, all),
        in_first_order(list, start, all),
    ensures
        first_entries(list, start, all.push(t)),
        in_first_order(list, start, all.push(t)),
{
    reveal(first_entries);
    reveal(in_first_order);
    let more = all.push(t);
    assert forall|j: int| start <= j < list.len() implies is_first_entry(
        more,
        #[trigger] list[j],
    ) by {
        lemma_first_entry_more(all, list[j], t);
    }
    assert forall|i: int, j: int| 0 <= i < j < list.len() && start <= j implies occurs_before(
        more,
        (#[trigger] list[i]).rank,
        (#[trigger] list[j]).rank,
    ) by {
        lemma_occurs_before_more(all, list[i].rank, list[j].rank, t);
    }
}

proof fn lemma_order_new(list: Seq<ThemeView>, start: int, all: Seq<ThemeView>, t: ThemeView)
    requires
        0 <= start,
        first_entries(list, start, all),
        in_first_order(list, start, all),
        within(list, all),
        forall|k: int| 0 <= k < all.len() ==> (#[trigger] all[k]).rank != t.rank,
    ensures
        first_entries(list.push(t), start, all.push(t)),
        in_first_order(list.push(t), start, all.push(t)),
{
    lemma_order_more(list, start, all, t);
    reveal(first_entries);
    reveal(in_first_order);
    let more = all.push(t);
    let longer = list.push(t);
    assert forall|j: int| start <= j < longer.len() implies is_first_entry(
        more,
        #[trigger] longer[j],
    ) by {
        if j < list.len() {
            assert(is_first_entry(more, list[j]));
        } else {
            assert(more[all.len() as int] == t);
            assert forall|q: int| 0 <= q < all.len() implies (#[trigger] more[q]).rank
                != t.rank by {
                assert(more[q] == all[q]);
            }
        }
    }
    assert forall|i: int, j: int|
        0 <= i < j < longer.len() && start <= j implies occurs_before(
        more,
        (#[trigger] longer[i]).rank,
        (#[trigger] longer[j]).rank,
    ) by {
        assert(longer[i] == list[i]);
        if j < list.len() {
            assert(longer[j] == list[j]);
        } else {
            reveal(within);
            assert(all.contains(list[i]));
            let p = choose|p: int| 0 <= p < all.len() && all[p] == list[i];
            assert(more[p].rank == list[i].rank);
            assert forall|q: int| 0 <= q < more.len() && (#[trigger] more[q]).rank
                == t.rank implies p < q by {
                if q < all.len() {
                    assert(more[q] == all[q]);
                }
            }
        }
    }
}

/// New entries are joined to a list in their order: seen as one list with the new behind the
/// old, the result has the themes in the order in which they first occur, each by its first
/// entry, and misses none.
pub proof fn law_joined_order(list: Seq<ThemeView>, found: Seq<ThemeView>)
    ensures
        list.is_prefix_of(joined_new(list, found)),
        covers(joined_new(list, found), list + found),
        within(joined_new(list, found), list + found),
        first_entries(joined_new(list, found), list.len() as int, list + found),
        in_first_order(joined_new(list, found), list.len() as int, list + found),
    decreases found.len(),
{
    let res = joined_new(list, found);
    let start = list.len() as int;
    if found.len() == 0 {
        assert(list + found =~= list);
        lemma_covers_itself(list);
        reveal(within);
        reveal(first_entries);
        reveal(in_first_order);
    } else {
        let less = found.drop_last();
        let t = found.last();
        let all = list + less;
        let before = joined_new(list, less);
        law_joined_order(list, less);
        assert(list + found =~= all.push(t));
        lemma_within_more(before, all, t);
        if has_rank(before, t.rank) {
            lemma_covers_more(before, all, res, t);
            lemma_order_more(before, start, all, t);
        } else {
            lemma_new_theme(before, all, t);
            lemma_order_new(before, start, all, t);
            assert(res[before.len() as int].rank == t.rank);
            assert(before =~= res.take(before.len() as int));
            lemma_covers_more(before, all, res, t);
            assert(list =~= res.take(start));
        }
    }
}

/// To join twice is to join both at once.
pub proof fn law_joined_twice(list: Seq<ThemeView>, a: Seq<ThemeView>, b: Seq<ThemeView>)
    ensures
        joined_new(joined_new(list, a), b) == joined_new(list, a + b),
    decreases b.len(),
{
    if b.len() == 0 {
        assert(a + b =~= a);
    } else {
        law_joined_twice(list, a, b.drop_last());
        assert((a + b).drop_last() =~= a + b.drop_last());
        assert((a + b).last() == b.last());
    }
}

/// How often the theme changes from one entry to the next, up to the entry at `i`.
pub open spec fn changes(list: Seq<ThemeView>, i: int) -> int
    decreases i,
{
    if i <= 0 {
        0
    } else if list[i - 1].rank == list[i].rank {
        changes(list, i - 1)
    } else {
        changes(list, i - 1) + 1
    }
}

proof fn lemma_changes_prefix(list: Seq<ThemeView>, i: int)
    requires
        i < list.len() - 1,
    ensures
        changes(list.drop_last(), i) == changes(list, i),
        i >= 0 ==> 0 <= changes(list, i) <= i,
    decreases i,
{
    if i > 0 {
        lemma_changes_prefix(list, i - 1);
    }
}

/// The run that the entry at `i` belongs to is in `kept` at its place among the runs, and by
/// its first entry.
pub open spec fn keeps_run(kept: Seq<ThemeView>, list: Seq<ThemeView>, i: int) -> bool {
    let at = changes(list, i);
    &&& 0 <= at < kept.len()
    &&& kept[at].rank == list[i].rank
    &&& i == 0 || list[i - 1].rank != list[i].rank ==> kept[at] == list[i]
}

/// Without repeats, each run of entries of one theme is left as its first entry, and the runs
/// stay in their order.
pub proof fn law_runs(list: Seq<ThemeView>)
    ensures
        list.len() > 0 ==> without_repeats(list).len() == changes(list, list.len() - 1) + 1,
        list.len() == 0 ==> without_repeats(list).len() == 0,
        forall|i: int|
            0 <= i < list.len() ==> #[trigger] keeps_run(without_repeats(list), list, i),
    decreases list.len(),
{
    let kept = without_repeats(list);
    if list.len() >= 2 {
        let less = list.drop_last();
        law_runs(less);
        let last = list.len() - 1;
        lemma_changes_prefix(list, last - 1);
        assert forall|i: int| 0 <= i < list.len() implies #[trigger] keeps_run(kept, list, i) by {
            if i < last {
                lemma_changes_prefix(list, i);
                assert(keeps_run(without_repeats(less), less, i));
            } else {
                assert(keeps_run(without_repeats(less), less, last - 1));
            }
        }
    }
}

/// A list in which no entry repeats the theme before it has nothing left out.
pub proof fn law_nothing_repeated(list: Seq<ThemeView>)
    requires
        forall|i: int, j: int|
            0 <= i && j == i + 1 && j < list.len() ==> list[i].rank != list[j].rank,
    ensures
        without_repeats(list) == list,
    decreases list.len(),
{
    if list.len() >= 2 {
        let less = list.drop_last();
        assert forall|i: int, j: int|
            0 <= i && j == i + 1 && j < less.len() implies less[i].rank != less[j].rank by {
            assert(list[i].rank != list[j].rank);
        }
        law_nothing_repeated(less);
        assert(list[list.len() - 2].rank != list[list.len() - 1].rank);
        assert(less.push(list.last()) =~= list);
    }
}

/// The themes found are those of the results that hold one, in the order of the results.
pub proof fn law_found_themes(
    a: Seq<Option<ThemeEntry>>,
    b: Seq<Option<ThemeEntry>>,
    entry: ThemeEntry,
)
    ensures
        found_themes(a + b) == found_themes(a) + found_themes(b),
        found_themes(seq![Some(entry)]) == seq![entry@],
        found_themes(seq![None]) == Seq::<ThemeView>::empty(),
{
    lemma_filter_map_add(a, b, theme_of_result());
    lemma_filter_map_one(Some(entry), theme_of_result());
    lemma_filter_map_one(None::<ThemeEntry>, theme_of_result());
}

/// The first theme of a name is the one before which no theme has that name.
pub proof fn law_first_named(list: Seq<ThemeView>, name: Seq<char>)
    ensures
        match first_named(list, name) {
            Some(i) => 0 <= i < list.len() && list[i].name == name && forall|j: int|
                0 <= j < i ==> (#[trigger] list[j]).name != name,
            None => forall|j: int| 0 <= j < list.len() ==> (#[trigger] list[j]).name != name,
        },
{
    let spelled = list.map_values(|t: ThemeView| t.name);
    spelled.index_of_first_ensures(name);
    match first_named(list, name) {
        Some(i) => {
            assert forall|j: int| 0 <= j < i implies (#[trigger] list[j]).name != name by {
                assert(spelled[j] == list[j].name);
            }
        },
        None => {
            assert forall|j: int| 0 <= j < list.len() implies (#[trigger] list[j]).name != name by {
                assert(spelled[j] == list[j].name);
                assert(spelled.contains(spelled[j]));
            }
        },
    }
}

} // verus!
