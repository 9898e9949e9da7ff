//! Term dictionaries: sources of terms that can be sampled with or without
//! replacement. A flat dictionary holds terms; a two-level dictionary holds
//! kinds, each with its sub-terms.

use crate::chance::random_element;
use crate::chance::random_index;
use crate::character::texts;
use crate::image::has_image_extension;
use crate::image::images_among;
use vstd::multiset::Multiset;
use vstd::prelude::*;

verus! {

/// What is left of `terms` once the term at `index` has been taken out: the
/// last term moves into the gap, so the order of the others is not kept.
pub open spec fn without_term<A>(terms: Seq<A>, index: int) -> Seq<A> {
    terms.update(index, terms.last()).drop_last()
}

/// A sampling step on a flat pool: `taken` left `before` at some position
/// and `after` is what remained.
pub open spec fn took_one(before: Seq<Seq<char>>, after: Seq<Seq<char>>, taken: Seq<char>) -> bool {
    exists|i: int|
        0 <= i < before.len() && #[trigger] before[i] == taken && after == without_term(before, i)
}

/// A source of terms.
pub trait Dictionary: Sized {
    /// Every term the dictionary can currently hand out, each as often as it
    /// is held.
    spec fn pool(&self) -> Multiset<Seq<char>>;

    /// Whether every draw on the dictionary yields a term while it holds one.
    spec fn dependable(&self) -> bool;

    /// Samples a term and leaves the dictionary as it is.
    fn choose_term(&self) -> (term: Option<String>)
        ensures
            term matches Some(t) ==> self.pool().count(t@) > 0,
            self.pool().len() == 0 ==> term is None,
            self.dependable() && self.pool().len() > 0 ==> term is Some,
    ;

    /// Samples a term and removes it for good.
    fn choose_and_remove(&mut self) -> (term: Option<String>)
        ensures
            term matches Some(t) ==> old(self).pool() =~= final(self).pool().insert(t@),
            term is None ==> final(self).pool() =~= old(self).pool(),
            old(self).pool().len() == 0 ==> term is None,
            old(self).dependable() ==> final(self).dependable(),
            old(self).dependable() && old(self).pool().len() > 0 ==> term is Some,
    ;

    /// A working copy of what the dictionary holds now. The cost is linear
    /// in the number of terms held.
    fn snapshot(&self) -> (copy: Self)
        ensures
            copy.pool() == self.pool(),
            copy.dependable() == self.dependable(),
    ;
}

/// The dictionaries of this library, whose `Clone` is derived and so copies
/// field by field.
pub trait FieldwiseClone: Clone {
    /// The fields as plain values.
    type Fields;

    /// What the fields hold.
    spec fn fields(&self) -> Self::Fields;
}

/// Calls `dyn_clone::clone_box` on the dictionary and takes the copy out of
/// its box. Trusted: the fields of the copy hold what the fields of the
/// dictionary hold. The outside function clones through `Clone`, which the
/// dictionaries of this library derive.
#[verifier::external_body]
pub(crate) fn duplicate<D: FieldwiseClone>(dict: &D) -> (copy: D)
    ensures
        copy.fields() == dict.fields(),
{
    *dyn_clone::clone_box(dict)
}

/// A named flat pool of terms.
#[derive(Clone, Debug)]
pub struct SimpleDictionary {
    name: String,
    terms: Vec<String>,
}

impl FieldwiseClone for SimpleDictionary {
    type Fields = (Seq<char>, Seq<Seq<char>>);

    closed spec fn fields(&self) -> (Seq<char>, Seq<Seq<char>>) {
        (self.name@, texts(self.terms@))
    }
}

impl View for SimpleDictionary {
    type V = Seq<Seq<char>>;

    /// The terms held, in storage order.
    closed spec fn view(&self) -> Seq<Seq<char>> {
        texts(self.terms@)
    }
}

impl SimpleDictionary {
    /// The dictionary's name as a sequence of characters.
    pub closed spec fn name_view(&self) -> Seq<char> {
        self.name@
    }

    /// A dictionary that holds the given terms in the given order.
    pub fn new(name: String, terms: Vec<String>) -> (dict: Self)
        ensures
            dict.name_view() == name@,
            dict@ == texts(terms@),
    {
        SimpleDictionary { name, terms }
    }

    /// A dictionary that holds one term.
    pub fn new_with_single_term(dict_name: String, term: String) -> (dict: Self)
        ensures
            dict.name_view() == dict_name@,
            dict@ == seq![term@],
    {
        let mut terms: Vec<String> = Vec::new();
        terms.push(term);
        assert(texts(terms@) =~= seq![term@]);
        SimpleDictionary { name: dict_name, terms }
    }

    /// A dictionary of the images of a folder: of the given file names it
    /// holds those that end in an accepted image extension, in the given
    /// order.
    pub fn new_from_folder(name: String, file_names: Vec<String>) -> (dict: Self)
        ensures
            dict.name_view() == name@,
            dict@ == images_among(texts(file_names@)),
    {
        let mut terms: Vec<String> = Vec::new();
        let mut at: usize = 0;
        proof {
            assert(texts(file_names@).take(0) =~= Seq::empty());
        }
        while at < file_names.len()
            invariant
                at <= file_names@.len(),
                texts(terms@) == images_among(texts(file_names@).take(at as int)),
            decreases file_names@.len() - at,
        {
            proof {
                let seen = texts(file_names@).take(at + 1);
                assert(seen.drop_last() =~= texts(file_names@).take(at as int));
                assert(seen.last() == file_names@[at as int]@);
            }
            if has_image_extension(file_names[at].as_str()) {
                let kept = file_names[at].clone();
                proof {
                    assert(texts(terms@.push(kept)) =~= texts(terms@).push(kept@));
                }
                terms.push(kept);
            }
            at = at + 1;
        }
        proof {
            assert(texts(file_names@).take(file_names@.len() as int) =~= texts(file_names@));
        }
        SimpleDictionary { name, terms }
    }

    /// The dictionary's name.
    pub fn name(&self) -> (name: &String)
        ensures
            name@ == self.name_view(),
    {
        &self.name
    }

    /// How many terms the dictionary holds.
    pub fn len(&self) -> (len: usize)
        ensures
            len == self@.len(),
    {
        self.terms.len()
    }

    /// The term stored at `index`.
    pub fn term_at(&self, index: usize) -> (term: String)
        requires
            index < self@.len(),
        ensures
            term@ == self@[index as int],
    {
        self.terms[index].clone()
    }

    /// Takes the term stored at `index` out of the dictionary.
    pub fn remove_at(&mut self, index: usize) -> (term: String)
        requires
            index < old(self)@.len(),
        ensures
            term@ == old(self)@[index as int],
            final(self)@ == without_term(old(self)@, index as int),
            final(self).name_view() == old(self).name_view(),
    {
        let term = self.terms.swap_remove(index);
        assert(texts(self.terms@) =~= without_term(texts(old(self).terms@), index as int));
        term
    }
}

/// Taking a term out of a pool leaves the pool's multiset less that term.
pub proof fn lemma_without_term_multiset<A>(terms: Seq<A>, index: int)
    requires
        0 <= index < terms.len(),
    ensures
        terms.to_multiset() =~= without_term(terms, index).to_multiset().insert(terms[index]),
        without_term(terms, index).len() == terms.len() - 1,
{
    broadcast use vstd::seq_lib::group_to_multiset_ensures;

    let rest = terms.drop_last();
    assert(terms =~= rest.push(terms.last()));
    if index == terms.len() - 1 {
        assert(without_term(terms, index) =~= rest);
    } else {
        let moved = without_term(terms, index);
        assert(moved =~= rest.update(index, terms.last()));
        assert(rest.remove(index) =~= moved.remove(index));
        assert(rest.to_multiset() =~= rest.remove(index).to_multiset().insert(rest[index]));
        assert(moved.to_multiset() =~= moved.remove(index).to_multiset().insert(moved[index]));
    }
}

impl Dictionary for SimpleDictionary {
    open spec fn pool(&self) -> Multiset<Seq<char>> {
        self@.to_multiset()
    }

    /// A flat dictionary never comes back empty while it holds a term.
    open spec fn dependable(&self) -> bool {
        true
    }

    fn choose_term(&self) -> (term: Option<String>)
        ensures
            self@.len() == 0 <==> term is None,
            term matches Some(t) ==> self@.contains(t@),
    {
        match random_element(&self.terms) {
            Some(value) => {
                let term = value.clone();
                proof {
                    broadcast use vstd::seq_lib::group_to_multiset_ensures;

                    let i = choose|i: int| 0 <= i < self.terms@.len() && self.terms@[i] == *value;
                    assert(self@[i] == term@);
                }
                Some(term)
            },
            None => {
                proof {
                    broadcast use vstd::seq_lib::group_to_multiset_ensures;

                }
                None
            },
        }
    }

    fn choose_and_remove(&mut self) -> (term: Option<String>)
        ensures
            old(self)@.len() == 0 <==> term is None,
            term is None ==> final(self)@ == old(self)@,
            term matches Some(t) ==> took_one(old(self)@, final(self)@, t@),
            final(self).name_view() == old(self).name_view(),
    {
        match random_index(self.terms.len()) {
            Some(index) => {
                let term = self.remove_at(index);
                proof {
                    lemma_without_term_multiset(old(self)@, index as int);
                }
                Some(term)
            },
            None => {
                proof {
                    broadcast use vstd::seq_lib::group_to_multiset_ensures;

                }
                None
            },
        }
    }

    fn snapshot(&self) -> (copy: Self)
        ensures
            copy@ == self@,
            copy.name_view() == self.name_view(),
    {
        duplicate(self)
    }
}

/// A run of sampling steps without replacement on a flat pool: `states` are
/// the pool before the first step and after each step, `outs` the terms that
/// came out, in order.
pub open spec fn drawn_in_turn(states: Seq<Seq<Seq<char>>>, outs: Seq<Seq<char>>) -> bool {
    &&& states.len() == outs.len() + 1
    &&& forall|k: int|
        0 <= k < outs.len() ==> took_one(#[trigger] states[k], states[k + 1], outs[k])
}

/// Taking a term out of a pool without repeats leaves a pool without repeats
/// that no longer holds the term and holds nothing new.
pub proof fn lemma_without_term_distinct<A>(terms: Seq<A>, index: int)
    requires
        0 <= index < terms.len(),
        terms.no_duplicates(),
    ensures
        without_term(terms, index).no_duplicates(),
        !without_term(terms, index).contains(terms[index]),
        forall|x: A| without_term(terms, index).contains(x) ==> terms.contains(x),
{
    let rest = without_term(terms, index);
    assert forall|x: A| rest.contains(x) implies terms.contains(x) by {
        let j = choose|j: int| 0 <= j < rest.len() && rest[j] == x;
        if j == index {
            assert(terms[terms.len() - 1] == x);
        } else {
            assert(terms[j] == x);
        }
    }
    if rest.contains(terms[index]) {
        let j = choose|j: int| 0 <= j < rest.len() && rest[j] == terms[index];
        if j == index {
            assert(terms[terms.len() - 1] == terms[index]);
        } else {
            assert(terms[j] == terms[index]);
        }
    }
}

/// Sampling without replacement never repeats itself on distinct terms: when
/// the pool starts without repeats, the terms that come out are pairwise
/// distinct, each was in the pool at the start, and the pool shrinks by one
/// with each of them. So a pool of K distinct terms yields K distinct terms
/// in K steps and is empty after them.
pub proof fn lemma_draws_are_distinct(states: Seq<Seq<Seq<char>>>, outs: Seq<Seq<char>>)
    requires
        drawn_in_turn(states, outs),
        states[0].no_duplicates(),
    ensures
        outs.no_duplicates(),
        forall|k: int| 0 <= k < outs.len() ==> states[0].contains(#[trigger] outs[k]),
        states.last().len() == states[0].len() - outs.len(),
        states.last().no_duplicates(),
    decreases outs.len(),
{
    if outs.len() > 0 {
        let later = states.drop_first();
        let rest = outs.drop_first();
        assert(took_one(states[0], states[1], outs[0]));
        let i = choose|i: int|
            0 <= i < states[0].len() && #[trigger] states[0][i] == outs[0] && states[1]
                == without_term(states[0], i);
        lemma_without_term_distinct(states[0], i);
        assert forall|k: int| 0 <= k < rest.len() implies took_one(
            #[trigger] later[k],
            later[k + 1],
            rest[k],
        ) by {
            assert(took_one(states[k + 1], states[k + 2], outs[k + 1]));
        }
        lemma_draws_are_distinct(later, rest);
        assert(later.last() == states.last());
        assert forall|k: int| 0 <= k < outs.len() implies states[0].contains(
            #[trigger] outs[k],
        ) by {
            if k > 0 {
                assert(later[0].contains(rest[k - 1]));
            }
        }
        assert forall|a: int, b: int| 0 <= a < outs.len() && 0 <= b < outs.len() && a != b implies outs[a] != outs[b] by {
            if a == 0 {
                assert(later[0].contains(rest[b - 1]));
            } else if b == 0 {
                assert(later[0].contains(rest[a - 1]));
            } else {
                assert(rest[a - 1] != rest[b - 1]);
            }
        }
    }
}

} // verus!
