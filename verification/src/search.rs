//! What becomes of the answers to a search of the catalogue.
use vstd::prelude::*;

use crate::list::covers;
use crate::list::distinct;
use crate::list::drawn_from;
use crate::list::find_named;
use crate::list::first_named;
use crate::list::has_rank;
use crate::list::join_new;
use crate::list::joined_new;
use crate::list::first_entries;
use crate::list::in_first_order;
use crate::list::law_first_named;
use crate::list::law_joined_new;
use crate::list::law_joined_order;
use crate::list::law_joined_twice;
use crate::list::optional_theme;
use crate::list::ranks;
use crate::list::within;
use crate::text::lemma_filter_map_add;
use crate::text::lemma_filter_map_one;
use crate::text::texts;
use crate::theme::ThemeEntry;
use crate::theme::ThemeView;
use crate::theme::themes;

verus! {

/// How many themes a fuzzy search is asked for.
pub const FUZZY_LIMIT: usize = 10;

/// The themes of the catalogue that match a query, by how they match.
#[derive(Debug)]
pub struct Matches {
    /// The name starts with the query.
    pub starts_with: Vec<ThemeEntry>,
    /// The name starts with the query but for upper and lower case.
    pub starts_with_lower: Vec<ThemeEntry>,
    /// The name contains the query.
    pub contains: Vec<ThemeEntry>,
    /// The name contains the query but for upper and lower case.
    pub contains_lower: Vec<ThemeEntry>,
    /// The best results of a fuzzy search. It need not be made unless the rest is empty.
    pub fuzzy: Vec<ThemeEntry>,
}

impl Matches {
    /// The names that start with the query, exactly or but for case.
    pub open spec fn starting(self) -> Seq<ThemeView> {
        joined_new(themes(self.starts_with@), themes(self.starts_with_lower@))
    }

    /// Those and the names that contain the query exactly.
    pub open spec fn starting_or_containing(self) -> Seq<ThemeView> {
        joined_new(self.starting(), themes(self.contains@))
    }

    /// The exact matches, the better ones first, each theme where it first occurs.
    pub open spec fn exact(self) -> Seq<ThemeView> {
        joined_new(self.starting_or_containing(), themes(self.contains_lower@))
    }

    /// The matches that are listed: the exact ones, or if there are none the fuzzy ones.
    pub open spec fn ranked(self) -> Seq<ThemeView> {
        if self.exact().len() > 0 {
            self.exact()
        } else {
            themes(self.fuzzy@)
        }
    }

    /// No matches.
    pub fn none() -> (m: Matches)
        ensures
            m.ranked() == Seq::<ThemeView>::empty(),
    {
        let m = Matches {
            starts_with: Vec::new(),
            starts_with_lower: Vec::new(),
            contains: Vec::new(),
            contains_lower: Vec::new(),
            fuzzy: Vec::new(),
        };
        assert(themes(m.fuzzy@) =~= Seq::<ThemeView>::empty());
        assert(m.exact() == themes(m.starts_with@));
        m
    }

    /// Whether a fuzzy search has to be made: nothing matches exactly.
    pub fn wants_fuzzy(&self) -> (wanted: bool)
        ensures
            wanted == (self.exact().len() == 0),
    {
        proof {
            let one = themes(self.starts_with@);
            let two = joined_new(one, themes(self.starts_with_lower@));
            let three = joined_new(two, themes(self.contains@));
            law_joined_new(one, themes(self.starts_with_lower@));
            law_joined_new(two, themes(self.contains@));
            law_joined_new(three, themes(self.contains_lower@));
            if self.starts_with_lower@.len() > 0 {
                let t = themes(self.starts_with_lower@)[0];
                assert(has_rank(two, t.rank));
            }
            if self.contains@.len() > 0 {
                let t = themes(self.contains@)[0];
                assert(has_rank(three, t.rank));
            }
            if self.contains_lower@.len() > 0 {
                let t = themes(self.contains_lower@)[0];
                assert(has_rank(self.exact(), t.rank));
            }
        }
        self.starts_with.len() == 0 && self.starts_with_lower.len() == 0 && self.contains.len()
            == 0 && self.contains_lower.len() == 0
    }

    /// The matches in the order in which they are listed.
    pub fn rank(self) -> (list: Vec<ThemeEntry>)
        ensures
            themes(list@) == self.ranked(),
    {
        let mut list = self.starts_with;
        join_new(&mut list, self.starts_with_lower);
        join_new(&mut list, self.contains);
        join_new(&mut list, self.contains_lower);
        if list.len() == 0 {
            self.fuzzy
        } else {
            list
        }
    }
}

/// The exact matches come in this order: the names that start with the query, those that
/// do but for case, those that contain it, those that do but for case. Each match is in
/// the list, the list holds nothing else, and no theme is listed twice, if none starts
/// with the query twice.
pub proof fn law_exact_matches(m: Matches)
    ensures
        themes(m.starts_with@).is_prefix_of(m.starting()),
        m.starting().is_prefix_of(m.starting_or_containing()),
        m.starting_or_containing().is_prefix_of(m.exact()),
        drawn_from(
            m.starting().skip(m.starts_with@.len() as int),
            themes(m.starts_with_lower@),
        ),
        drawn_from(
            m.starting_or_containing().skip(m.starting().len() as int),
            themes(m.contains@),
        ),
        drawn_from(
            m.exact().skip(m.starting_or_containing().len() as int),
            themes(m.contains_lower@),
        ),
        forall|i: int|
            0 <= i < m.starts_with_lower@.len() ==> has_rank(
                m.exact(),
                (#[trigger] themes(m.starts_with_lower@)[i]).rank,
            ),
        forall|i: int|
            0 <= i < m.contains@.len() ==> has_rank(
                m.exact(),
                (#[trigger] themes(m.contains@)[i]).rank,
            ),
        forall|i: int|
            0 <= i < m.contains_lower@.len() ==> has_rank(
                m.exact(),
                (#[trigger] themes(m.contains_lower@)[i]).rank,
            ),
        distinct(themes(m.starts_with@)) ==> distinct(m.exact()),
{
    let one = themes(m.starts_with@);
    let lower = themes(m.starts_with_lower@);
    let inside = themes(m.contains@);
    let inside_lower = themes(m.contains_lower@);
    let two = joined_new(one, lower);
    let three = joined_new(two, inside);
    let all = m.exact();
    law_joined_new(one, lower);
    law_joined_new(two, inside);
    law_joined_new(three, inside_lower);
    assert forall|i: int| 0 <= i < lower.len() implies has_rank(all, (#[trigger] lower[i]).rank) by {
        assert(has_rank(two, lower[i].rank));
        let k = choose|k: int| 0 <= k < two.len() && (#[trigger] two[k]).rank == lower[i].rank;
        assert(three[k] == two[k] && all[k] == two[k]);
    }
    assert forall|i: int| 0 <= i < inside.len() implies has_rank(
        all,
        (#[trigger] inside[i]).rank,
    ) by {
        assert(has_rank(three, inside[i].rank));
        let k = choose|k: int| 0 <= k < three.len() && (#[trigger] three[k]).rank == inside[i].rank;
        assert(all[k] == three[k]);
    }
}

/// What is listed for a query. Seen one behind the other, the names that start with the
/// query, those that do but for case, those that contain it and those that do but for case
/// are all listed, however many there are: first the names that start with the query, then
/// each other theme once, by its first entry and in the order in which the themes first
/// occur. Nothing else is listed, unless nothing matches: then it is the fuzzy matches.
pub proof fn law_ranked(m: Matches)
    ensures
        ({
            let all = themes(m.starts_with@) + themes(m.starts_with_lower@) + themes(m.contains@)
                + themes(m.contains_lower@);
            let listed = m.ranked();
            let sure = m.starts_with@.len() as int;
            &&& all.len() == 0 ==> listed == themes(m.fuzzy@)
            &&& all.len() > 0 ==> {
                &&& themes(m.starts_with@).is_prefix_of(listed)
                &&& covers(listed, all)
                &&& within(listed, all)
                &&& first_entries(listed, sure, all)
                &&& in_first_order(listed, sure, all)
            }
            &&& m.exact().len() == 0 <==> all.len() == 0
        }),
{
    let one = themes(m.starts_with@);
    let two = themes(m.starts_with_lower@);
    let three = themes(m.contains@);
    let four = themes(m.contains_lower@);
    law_joined_twice(one, two, three);
    law_joined_twice(one, two + three, four);
    let rest = two + three + four;
    assert(one + two + three + four =~= one + rest);
    law_joined_order(one, rest);
    let all = one + rest;
    if all.len() > 0 {
        assert(m.exact() == joined_new(one, rest));
        assert(m.exact().len() > 0) by {
            reveal(covers);
            assert(ranks(m.exact()).contains(all[0].rank));
        }
    }
}

/// What each name stands for: the catalogue's first theme of exactly this name, else the
/// answer of a fuzzy search for the name.
pub open spec fn answers(
    names: Seq<Seq<char>>,
    catalogue: Seq<ThemeView>,
    fuzzy: Seq<Option<ThemeEntry>>,
) -> Seq<Option<ThemeView>> {
    Seq::new(
        names.len(),
        |i: int|
            match first_named(catalogue, names[i]) {
                Some(k) => Some(catalogue[k]),
                None => optional_theme(fuzzy[i]),
            },
    )
}

/// The theme of an answer.
pub open spec fn theme_of_answer() -> spec_fn(Option<ThemeView>) -> Option<ThemeView> {
    |answer: Option<ThemeView>| answer
}

/// The themes that names stand for, in the order of the names; names that stand for none
/// are passed over.
pub open spec fn resolved(
    names: Seq<Seq<char>>,
    catalogue: Seq<ThemeView>,
    fuzzy: Seq<Option<ThemeEntry>>,
) -> Seq<ThemeView> {
    answers(names, catalogue, fuzzy).filter_map(theme_of_answer())
}

/// The themes for these names, falling back to a fuzzy match so that a name need not be
/// spelled exactly. `fuzzy` holds the answer of a fuzzy search for each of the names.
pub fn resolve_names(
    names: &Vec<String>,
    catalogue: &Vec<ThemeEntry>,
    fuzzy: Vec<Option<ThemeEntry>>,
) -> (found: Vec<ThemeEntry>)
    requires
        fuzzy@.len() == names@.len(),
    ensures
        themes(found@) == resolved(texts(names@), themes(catalogue@), fuzzy@),
{
    let mut found: Vec<ThemeEntry> = Vec::new();
    let ghost near = fuzzy@;
    let ghost all = answers(texts(names@), themes(catalogue@), near);
    let mut i: usize = 0;
    assert(all.take(0) =~= Seq::empty());
    assert(themes(found@) =~= all.take(0).filter_map(theme_of_answer()));
    for guess in it: fuzzy
        invariant
            it.seq() == near,
            i == it.index(),
            near.len() == names@.len(),
            all == answers(texts(names@), themes(catalogue@), near),
            themes(found@) == all.take(i as int).filter_map(theme_of_answer()),
    {
        let ghost before = found@;
        assert(all.take(i + 1).drop_last() =~= all.take(i as int));
        assert(i < names.len());
        let best = match find_named(catalogue, &names[i]) {
            Some(k) => Some(catalogue[k].clone()),
            None => guess,
        };
        assert(optional_theme(best) == all[i as int]);
        if let Some(entry) = best {
            found.push(entry);
            assert(themes(found@) =~= themes(before) + seq![entry@]);
        }
        i = i + 1;
    }
    assert(all.take(i as int) =~= all);
    found
}

proof fn lemma_all_answered(all: Seq<Option<ThemeView>>)
    requires
        forall|i: int| 0 <= i < all.len() ==> (#[trigger] all[i]) is Some,
    ensures
        all.filter_map(theme_of_answer()) == all.map_values(|a: Option<ThemeView>| a->0),
    decreases all.len(),
{
    let values = all.map_values(|a: Option<ThemeView>| a->0);
    if all.len() > 0 {
        let before = all.drop_last();
        lemma_all_answered(before);
        assert(all[all.len() - 1] is Some);
        assert(values =~= before.map_values(|a: Option<ThemeView>| a->0) + seq![all.last()->0]);
    } else {
        assert(values =~= Seq::empty());
    }
}

/// Names spelled exactly as themes of the catalogue stand for those themes, one for each
/// name and in their order, whatever a fuzzy search says.
pub proof fn law_exact_names(
    names: Seq<Seq<char>>,
    catalogue: Seq<ThemeView>,
    fuzzy: Seq<Option<ThemeEntry>>,
)
    requires
        forall|i: int|
            0 <= i < names.len() ==> catalogue.map_values(|t: ThemeView| t.name).contains(
                #[trigger] names[i],
            ),
    ensures
        resolved(names, catalogue, fuzzy).len() == names.len(),
        forall|i: int|
            0 <= i < names.len() ==> {
                let theme = #[trigger] resolved(names, catalogue, fuzzy)[i];
                theme.name == names[i] && catalogue.contains(theme)
            },
{
    let all = answers(names, catalogue, fuzzy);
    let spelled = catalogue.map_values(|t: ThemeView| t.name);
    assert forall|i: int| 0 <= i < all.len() implies (#[trigger] all[i]) is Some
        && all[i]->0.name == names[i] && catalogue.contains(all[i]->0) by {
        assert(spelled.contains(names[i]));
        spelled.index_of_first_ensures(names[i]);
        let k = first_named(catalogue, names[i])->0;
        assert(catalogue[k] == all[i]->0);
    }
    lemma_all_answered(all);
}

/// Names are looked up one by one: what some names stand for comes before what the names
/// behind them stand for.
pub proof fn law_names_alone(
    names: Seq<Seq<char>>,
    more: Seq<Seq<char>>,
    catalogue: Seq<ThemeView>,
    fuzzy: Seq<Option<ThemeEntry>>,
    more_fuzzy: Seq<Option<ThemeEntry>>,
)
    requires
        fuzzy.len() == names.len(),
        more_fuzzy.len() == more.len(),
    ensures
        resolved(names + more, catalogue, fuzzy + more_fuzzy) == resolved(names, catalogue, fuzzy)
            + resolved(more, catalogue, more_fuzzy),
{
    assert(answers(names + more, catalogue, fuzzy + more_fuzzy) =~= answers(
        names,
        catalogue,
        fuzzy,
    ) + answers(more, catalogue, more_fuzzy));
    lemma_filter_map_add(
        answers(names, catalogue, fuzzy),
        answers(more, catalogue, more_fuzzy),
        theme_of_answer(),
    );
}

/// A name stands for the first theme of the catalogue that has it; for what a fuzzy search
/// gives only if there is none.
pub proof fn law_name_alone(
    name: Seq<char>,
    catalogue: Seq<ThemeView>,
    guess: Option<ThemeEntry>,
    at: int,
)
    ensures
        ({
            let found = resolved(seq![name], catalogue, seq![guess]);
            let named = 0 <= at < catalogue.len() && catalogue[at].name == name && forall|j: int|
                0 <= j < at ==> (#[trigger] catalogue[j]).name != name;
            let unnamed = forall|j: int|
                0 <= j < catalogue.len() ==> (#[trigger] catalogue[j]).name != name;
            &&& named ==> found == seq![catalogue[at]]
            &&& unnamed ==> match guess {
                Some(entry) => found == seq![entry@],
                None => found.len() == 0,
            }
        }),
{
    law_first_named(catalogue, name);
    let all = answers(seq![name], catalogue, seq![guess]);
    assert(all =~= seq![all[0]]);
    lemma_filter_map_one(all[0], theme_of_answer());
}

} // verus!
