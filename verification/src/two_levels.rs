//! The two-level dictionary: an ordered list of kinds, each with its ordered
//! sub-terms. A sample is a kind and one of its sub-terms, joined by the
//! delimiter.

use crate::chance::random_element;
use crate::chance::random_index;
use crate::character::delimiter;
use crate::character::texts;
use crate::dictionary::duplicate;
use crate::dictionary::FieldwiseClone;
use crate::dictionary::lemma_without_term_multiset;
use crate::dictionary::without_term;
use crate::dictionary::Dictionary;
use vstd::multiset::Multiset;
use vstd::prelude::*;

verus! {

/// A kind with its sub-terms.
#[derive(Clone, Debug)]
pub struct Taxonomy {
    pub kind: String,
    pub terms: Vec<String>,
}

/// A taxonomy as plain values.
pub struct TaxonomyView {
    pub kind: Seq<char>,
    pub terms: Seq<Seq<char>>,
}

impl View for Taxonomy {
    type V = TaxonomyView;

    open spec fn view(&self) -> TaxonomyView {
        TaxonomyView { kind: self.kind@, terms: texts(self.terms@) }
    }
}

/// The views of a list of taxonomies.
pub open spec fn taxonomy_views(items: Seq<Taxonomy>) -> Seq<TaxonomyView> {
    items.map_values(|t: Taxonomy| t@)
}

/// A kind and a sub-term as one term: the kind, the delimiter, the sub-term.
pub open spec fn joined(kind: Seq<char>, term: Seq<char>) -> Seq<char> {
    kind + seq![delimiter()] + term
}

/// The joined terms that one taxonomy can hand out, in storage order.
pub open spec fn entries(taxonomy: TaxonomyView) -> Seq<Seq<char>> {
    taxonomy.terms.map_values(|term: Seq<char>| joined(taxonomy.kind, term))
}

/// All joined terms that a list of taxonomies can hand out.
pub open spec fn all_entries(taxonomies: Seq<TaxonomyView>) -> Multiset<Seq<char>>
    decreases taxonomies.len(),
{
    if taxonomies.len() == 0 {
        Multiset::empty()
    } else {
        all_entries(taxonomies.drop_last()).add(entries(taxonomies.last()).to_multiset())
    }
}

/// Whether no taxonomy of the list has run out of sub-terms.
pub open spec fn none_exhausted(taxonomies: Seq<TaxonomyView>) -> bool {
    forall|k: int| 0 <= k < taxonomies.len() ==> (#[trigger] taxonomies[k]).terms.len() > 0
}

/// Joins a kind and a sub-term with the delimiter.
pub fn join_term(kind: &String, term: &String) -> (whole: String)
    ensures
        whole@ == joined(kind@, term@),
{
    let mut whole = kind.clone();
    proof {
        reveal_strlit("+");
        assert("+"@ =~= seq![delimiter()]);
    }
    whole.append("+");
    whole.append(term.as_str());
    whole
}

/// A named two-level pool of terms.
#[derive(Clone, Debug)]
pub struct TwoLevelsDictionary {
    name: String,
    taxonomies: Vec<Taxonomy>,
}

impl FieldwiseClone for TwoLevelsDictionary {
    type Fields = (Seq<char>, Seq<TaxonomyView>);

    closed spec fn fields(&self) -> (Seq<char>, Seq<TaxonomyView>) {
        (self.name@, taxonomy_views(self.taxonomies@))
    }
}

impl View for TwoLevelsDictionary {
    type V = Seq<TaxonomyView>;

    /// The taxonomies held, in storage order.
    closed spec fn view(&self) -> Seq<TaxonomyView> {
        taxonomy_views(self.taxonomies@)
    }
}

/// The taxonomy `taxonomy` less its sub-term at `term_index`.
pub open spec fn less_term(taxonomy: TaxonomyView, term_index: int) -> TaxonomyView {
    TaxonomyView { kind: taxonomy.kind, terms: without_term(taxonomy.terms, term_index) }
}

/// What a two-level pool holds once the sub-term at `term_index` of the
/// taxonomy at `kind_index` has been taken out: the taxonomy stays in its
/// place while it has sub-terms left and leaves the pool with its last one.
pub open spec fn without_entry(
    taxonomies: Seq<TaxonomyView>,
    kind_index: int,
    term_index: int,
) -> Seq<TaxonomyView> {
    if taxonomies[kind_index].terms.len() == 1 {
        without_term(taxonomies, kind_index)
    } else {
        taxonomies.update(kind_index, less_term(taxonomies[kind_index], term_index))
    }
}

impl TwoLevelsDictionary {
    /// The dictionary's name as a sequence of characters.
    pub closed spec fn name_view(&self) -> Seq<char> {
        self.name@
    }

    /// A dictionary that holds the given taxonomies in the given order.
    pub fn new(name: String, taxonomies: Vec<Taxonomy>) -> (dict: Self)
        ensures
            dict.name_view() == name@,
            dict@ == taxonomy_views(taxonomies@),
    {
        TwoLevelsDictionary { name, taxonomies }
    }

    /// The dictionary's name.
    pub fn name(&self) -> (name: &String)
        ensures
            name@ == self.name_view(),
    {
        &self.name
    }

    /// How many taxonomies the dictionary holds.
    pub fn len(&self) -> (len: usize)
        ensures
            len == self@.len(),
    {
        self.taxonomies.len()
    }

    /// How many sub-terms the taxonomy at `kind_index` holds.
    pub fn terms_len(&self, kind_index: usize) -> (len: usize)
        requires
            kind_index < self@.len(),
        ensures
            len == self@[kind_index as int].terms.len(),
    {
        self.taxonomies[kind_index].terms.len()
    }

    /// The joined term of the taxonomy at `kind_index` and its sub-term at
    /// `term_index`.
    pub fn entry_at(&self, kind_index: usize, term_index: usize) -> (term: String)
        requires
            kind_index < self@.len(),
            term_index < self@[kind_index as int].terms.len(),
        ensures
            term@ == joined(
                self@[kind_index as int].kind,
                self@[kind_index as int].terms[term_index as int],
            ),
    {
        let taxonomy = &self.taxonomies[kind_index];
        join_term(&taxonomy.kind, &taxonomy.terms[term_index])
    }

    /// Takes the taxonomy at `kind_index` out of the dictionary, with
    /// whatever sub-terms it still holds.
    pub fn remove_kind(&mut self, kind_index: usize)
        requires
            kind_index < old(self)@.len(),
        ensures
            final(self)@ == without_term(old(self)@, kind_index as int),
            final(self).name_view() == old(self).name_view(),
    {
        let _ = self.taxonomies.swap_remove(kind_index);
        assert(taxonomy_views(self.taxonomies@) =~= without_term(
            taxonomy_views(old(self).taxonomies@),
            kind_index as int,
        ));
    }

    /// Takes the sub-term at `term_index` out of the taxonomy at
    /// `kind_index` and returns it joined to its kind. A taxonomy that gives
    /// its last sub-term leaves the dictionary.
    pub fn remove_entry(&mut self, kind_index: usize, term_index: usize) -> (term: String)
        requires
            kind_index < old(self)@.len(),
            term_index < old(self)@[kind_index as int].terms.len(),
        ensures
            term@ == joined(
                old(self)@[kind_index as int].kind,
                old(self)@[kind_index as int].terms[term_index as int],
            ),
            final(self)@ == without_entry(old(self)@, kind_index as int, term_index as int),
            final(self).name_view() == old(self).name_view(),
    {
        let term = self.entry_at(kind_index, term_index);
        if self.taxonomies[kind_index].terms.len() == 1 {
            self.remove_kind(kind_index);
        } else {
            let _ = self.taxonomies[kind_index].terms.swap_remove(term_index);
            assert(taxonomy_views(self.taxonomies@) =~= without_entry(
                taxonomy_views(old(self).taxonomies@),
                kind_index as int,
                term_index as int,
            )) by {
                let before = old(self).taxonomies@[kind_index as int];
                let after = self.taxonomies@[kind_index as int];
                assert(texts(after.terms@) =~= without_term(
                    texts(before.terms@),
                    term_index as int,
                ));
            }
        }
        term
    }
}

/// The entries of a list of taxonomies are those of the list without one
/// taxonomy, plus that taxonomy's own.
pub proof fn lemma_all_entries_split(taxonomies: Seq<TaxonomyView>, index: int)
    requires
        0 <= index < taxonomies.len(),
    ensures
        all_entries(taxonomies) =~= all_entries(taxonomies.remove(index)).add(
            entries(taxonomies[index]).to_multiset(),
        ),
    decreases taxonomies.len(),
{
    let front = taxonomies.drop_last();
    if index == taxonomies.len() - 1 {
        assert(taxonomies.remove(index) =~= front);
    } else {
        lemma_all_entries_split(front, index);
        let shorter = taxonomies.remove(index);
        assert(shorter.drop_last() =~= front.remove(index));
        assert(shorter.last() == taxonomies.last());
    }
}

/// Putting another taxonomy in the place of one swaps that one's entries for
/// the other's.
pub proof fn lemma_all_entries_update(
    taxonomies: Seq<TaxonomyView>,
    index: int,
    other: TaxonomyView,
)
    requires
        0 <= index < taxonomies.len(),
    ensures
        all_entries(taxonomies.update(index, other)) =~= all_entries(
            taxonomies.remove(index),
        ).add(entries(other).to_multiset()),
{
    let changed = taxonomies.update(index, other);
    lemma_all_entries_split(changed, index);
    assert(changed.remove(index) =~= taxonomies.remove(index));
}

/// Taking a taxonomy out of a list, the last one moving into its place,
/// takes exactly its entries out.
pub proof fn lemma_all_entries_without_kind(taxonomies: Seq<TaxonomyView>, index: int)
    requires
        0 <= index < taxonomies.len(),
    ensures
        all_entries(taxonomies) =~= all_entries(without_term(taxonomies, index)).add(
            entries(taxonomies[index]).to_multiset(),
        ),
{
    lemma_all_entries_split(taxonomies, index);
    let front = taxonomies.drop_last();
    if index == taxonomies.len() - 1 {
        assert(without_term(taxonomies, index) =~= taxonomies.remove(index));
    } else {
        assert(without_term(taxonomies, index) =~= front.update(index, taxonomies.last()));
        lemma_all_entries_update(front, index, taxonomies.last());
        let shorter = taxonomies.remove(index);
        assert(shorter.drop_last() =~= front.remove(index));
        assert(shorter.last() == taxonomies.last());
    }
}

/// Taking one sub-term out of a pool takes exactly its joined term out of
/// the pool's entries.
pub proof fn lemma_all_entries_without_entry(
    taxonomies: Seq<TaxonomyView>,
    kind_index: int,
    term_index: int,
)
    requires
        0 <= kind_index < taxonomies.len(),
        0 <= term_index < taxonomies[kind_index].terms.len(),
    ensures
        all_entries(taxonomies) =~= all_entries(
            without_entry(taxonomies, kind_index, term_index),
        ).insert(joined(taxonomies[kind_index].kind, taxonomies[kind_index].terms[term_index])),
{
    broadcast use vstd::seq_lib::group_to_multiset_ensures;

    let taxonomy = taxonomies[kind_index];
    let lesser = less_term(taxonomy, term_index);
    lemma_without_term_multiset(entries(taxonomy), term_index);
    assert(entries(lesser) =~= without_term(entries(taxonomy), term_index));
    if taxonomy.terms.len() == 1 {
        lemma_all_entries_without_kind(taxonomies, kind_index);
        assert(entries(lesser).len() == 0);
        assert(entries(lesser).to_multiset() =~= Multiset::empty());
    } else {
        lemma_all_entries_split(taxonomies, kind_index);
        lemma_all_entries_update(taxonomies, kind_index, lesser);
    }
}

/// A pool holds the joined term of each sub-term of each of its taxonomies.
pub proof fn lemma_all_entries_has(
    taxonomies: Seq<TaxonomyView>,
    kind_index: int,
    term_index: int,
)
    requires
        0 <= kind_index < taxonomies.len(),
        0 <= term_index < taxonomies[kind_index].terms.len(),
    ensures
        all_entries(taxonomies).count(
            joined(taxonomies[kind_index].kind, taxonomies[kind_index].terms[term_index]),
        ) > 0,
{
    lemma_all_entries_without_entry(taxonomies, kind_index, term_index);
}

/// A pool without entries has no taxonomy with a sub-term.
pub proof fn lemma_no_entries(taxonomies: Seq<TaxonomyView>)
    requires
        all_entries(taxonomies).len() == 0,
    ensures
        forall|k: int| 0 <= k < taxonomies.len() ==> (#[trigger] taxonomies[k]).terms.len() == 0,
{
    assert forall|k: int| 0 <= k < taxonomies.len() implies (#[trigger] taxonomies[k]).terms.len()
        == 0 by {
        if taxonomies[k].terms.len() > 0 {
            lemma_all_entries_has(taxonomies, k, 0);
        }
    }
}

/// Whether `term` is a kind of the pool joined to one of that kind's
/// sub-terms.
pub open spec fn is_entry(taxonomies: Seq<TaxonomyView>, term: Seq<char>) -> bool {
    exists|k: int, j: int|
        0 <= k < taxonomies.len() && 0 <= j < taxonomies[k].terms.len() && term == joined(
            taxonomies[k].kind,
            #[trigger] taxonomies[k].terms[j],
        )
}

/// A sampling step on a two-level pool: `taken` is a kind of `before` joined
/// to one of its sub-terms, and `after` is `before` without that sub-term.
pub open spec fn took_entry(
    before: Seq<TaxonomyView>,
    after: Seq<TaxonomyView>,
    taken: Seq<char>,
) -> bool {
    exists|k: int, j: int|
        0 <= k < before.len() && 0 <= j < before[k].terms.len() && taken == joined(
            before[k].kind,
            #[trigger] before[k].terms[j],
        ) && after == without_entry(before, k, j)
}

/// A draw that met a taxonomy without sub-terms: the taxonomy left the pool.
pub open spec fn dropped_exhausted(before: Seq<TaxonomyView>, after: Seq<TaxonomyView>) -> bool {
    exists|k: int|
        0 <= k < before.len() && (#[trigger] before[k]).terms.len() == 0 && after == without_term(
            before,
            k,
        )
}

impl Dictionary for TwoLevelsDictionary {
    open spec fn pool(&self) -> Multiset<Seq<char>> {
        all_entries(self@)
    }

    /// A two-level dictionary comes back empty on a taxonomy that has no
    /// sub-terms, so it is dependable while it holds no such taxonomy.
    open spec fn dependable(&self) -> bool {
        none_exhausted(self@)
    }

    fn choose_term(&self) -> (term: Option<String>)
        ensures
            term matches Some(t) ==> is_entry(self@, t@),
            self@.len() == 0 ==> term is None,
            term is None ==> self@.len() == 0 || !none_exhausted(self@),
    {
        proof {
            if all_entries(self@).len() == 0 {
                lemma_no_entries(self@);
            }
        }
        match random_element(&self.taxonomies) {
            Some(taxonomy) => {
                let ghost k = choose|k: int|
                    0 <= k < self.taxonomies@.len() && self.taxonomies@[k] == *taxonomy;
                assert(self@[k] == taxonomy@);
                match random_element(&taxonomy.terms) {
                    Some(sub_term) => {
                        let ghost j = choose|j: int|
                            0 <= j < taxonomy.terms@.len() && taxonomy.terms@[j] == *sub_term;
                        let term = join_term(&taxonomy.kind, sub_term);
                        proof {
                            assert(self@[k].terms[j] == sub_term@);
                            lemma_all_entries_has(self@, k, j);
                        }
                        Some(term)
                    },
                    None => None,
                }
            },
            None => None,
        }
    }

    fn choose_and_remove(&mut self) -> (term: Option<String>)
        ensures
            term matches Some(t) ==> took_entry(old(self)@, final(self)@, t@),
            term is None ==> (old(self)@.len() == 0 && final(self)@ == old(self)@)
                || dropped_exhausted(old(self)@, final(self)@),
            final(self).name_view() == old(self).name_view(),
    {
        proof {
            if all_entries(self@).len() == 0 {
                lemma_no_entries(self@);
            }
        }
        match random_index(self.taxonomies.len()) {
            Some(kind_index) => {
                match random_index(self.terms_len(kind_index)) {
                    Some(term_index) => {
                        let term = self.remove_entry(kind_index, term_index);
                        proof {
                            lemma_all_entries_without_entry(
                                old(self)@,
                                kind_index as int,
                                term_index as int,
                            );
                        }
                        Some(term)
                    },
                    None => {
                        self.remove_kind(kind_index);
                        proof {
                            broadcast use vstd::seq_lib::group_to_multiset_ensures;

                            lemma_all_entries_without_kind(old(self)@, kind_index as int);
                            let gone = entries(old(self)@[kind_index as int]);
                            assert(gone.len() == 0);
                            assert(gone.to_multiset().len() == 0);
                            assert(gone.to_multiset() =~= Multiset::empty());
                        }
                        None
                    },
                }
            },
            None => None,
        }
    }

    fn snapshot(&self) -> (copy: Self)
        ensures
            copy@ == self@,
            copy.name_view() == self.name_view(),
    {
        duplicate(self)
    }
}

/// Every term of a pool's entries is a kind of the pool joined to one of
/// that kind's sub-terms.
pub proof fn lemma_entries_are_joined(taxonomies: Seq<TaxonomyView>, term: Seq<char>)
    requires
        all_entries(taxonomies).count(term) > 0,
    ensures
        is_entry(taxonomies, term),
    decreases taxonomies.len(),
{
    broadcast use vstd::seq_lib::group_to_multiset_ensures;

    if taxonomies.len() > 0 {
        let front = taxonomies.drop_last();
        let last = taxonomies.last();
        if entries(last).to_multiset().count(term) > 0 {
            assert(entries(last).contains(term));
            let j = choose|j: int| 0 <= j < entries(last).len() && entries(last)[j] == term;
            let k = taxonomies.len() - 1;
            assert(term == joined(taxonomies[k].kind, taxonomies[k].terms[j]));
        } else {
            lemma_entries_are_joined(front, term);
            let (k, j) = choose|k: int, j: int|
                0 <= k < front.len() && 0 <= j < front[k].terms.len() && term == joined(
                    front[k].kind,
                    #[trigger] front[k].terms[j],
                );
            assert(term == joined(taxonomies[k].kind, taxonomies[k].terms[j]));
        }
    }
}

} // verus!
