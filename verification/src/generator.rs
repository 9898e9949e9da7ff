//! Feature generators, the pipeline that is assembled from configuration,
//! and the loop that drives it once per character.

use crate::calendar::add_days;
use crate::calendar::day_number;
use crate::calendar::first_day_of_year;
use crate::calendar::in_calendar;
use crate::calendar::lemma_year_in_calendar;
use crate::calendar::lemma_years_in_order;
use crate::calendar::timestamp_of;
use crate::calendar::utc_timestamp;
use crate::calendar::LAST_DAY;
use crate::chance::random_between;
use crate::character::texts;
use crate::character::CharacterFeature;
use crate::character::FeatureView;
use crate::character::Quirk;
use crate::character::Stat;
use crate::character::MAX_QUIRK_VALUE;
use crate::character::MIN_QUIRK_VALUE;
use crate::decimal::decimal;
use crate::decimal::to_decimal_string;
use crate::dictionary::took_one;
use crate::dictionary::Dictionary;
use crate::dictionary::SimpleDictionary;
use vstd::multiset::Multiset;
use vstd::prelude::*;

verus! {

/// The Unix timestamp of midnight UTC, `offset` days after the first of
/// January of `min_year`.
pub open spec fn midnight_after(min_year: int, offset: int) -> int {
    timestamp_of(first_day_of_year(min_year) + offset, 0, 0, 0)
}

/// The number of days from the first of January of `min_year` to that of
/// `max_year`.
pub open spec fn year_span(min_year: int, max_year: int) -> int {
    first_day_of_year(max_year) - first_day_of_year(min_year)
}

/// Whether `offset` is a number of days that a random date between the two
/// years may lie after the first of January of `min_year`: any day before the
/// first of January of `max_year`, and that one day where the two years are
/// the same.
pub open spec fn offset_in_span(min_year: int, max_year: int, offset: int) -> bool {
    0 <= offset && (offset < year_span(min_year, max_year) || offset == 0)
}

/// The timestamp of midnight UTC, `offset` days after the first of January
/// of `min_year`; nothing for a negative offset or a day after the year
/// 65535.
pub fn date_at_offset(min_year: u16, offset: i32) -> (seconds: Option<i64>)
    ensures
        0 <= offset && in_calendar(first_day_of_year(min_year as int) + offset) ==> seconds
            == Some(midnight_after(min_year as int, offset as int) as i64),
        !(0 <= offset && in_calendar(first_day_of_year(min_year as int) + offset))
            ==> seconds is None,
{
    proof {
        lemma_year_in_calendar(min_year as int);
    }
    if offset < 0 {
        return None;
    }
    match day_number(min_year as i32, 1, 1) {
        Some(first) => {
            if offset > LAST_DAY - first {
                return None;
            }
            match add_days(first, offset as i64) {
                Some(day) => utc_timestamp(day, 0, 0, 0),
                None => None,
            }
        },
        None => None,
    }
}

/// A random date from the first of January of `min_year` up to, and not
/// including, the first of January of `max_year`, as the timestamp of its
/// midnight in UTC. With the two years the same it is the first of January
/// of that year; with `min_year` the later one there is no such date.
pub fn get_random_date(min_year: u16, max_year: u16) -> (seconds: Option<i64>)
    ensures
        min_year > max_year <==> seconds is None,
        seconds matches Some(s) ==> exists|offset: int|
            offset_in_span(min_year as int, max_year as int, offset) && s == #[trigger] midnight_after(
                min_year as int,
                offset,
            ),
        seconds matches Some(s) ==> min_year < max_year ==> midnight_after(min_year as int, 0) <= s
            < midnight_after(max_year as int, 0),
{
    if min_year > max_year {
        return None;
    }
    proof {
        lemma_year_in_calendar(min_year as int);
        lemma_year_in_calendar(max_year as int);
        lemma_years_in_order(min_year as int, max_year as int);
    }
    let first = day_number(min_year as i32, 1, 1);
    let last = day_number(max_year as i32, 1, 1);
    let offset: i32 = match (first, last) {
        (Some(first), Some(last)) => {
            if last > first {
                random_between(0, last - first - 1)
            } else {
                0
            }
        },
        _ => 0,
    };
    let seconds = date_at_offset(min_year, offset);
    assert(offset_in_span(min_year as int, max_year as int, offset as int));
    assert(seconds == Some(midnight_after(min_year as int, offset as int) as i64));
    seconds
}

/// The record fields that hold one text.
#[derive(Clone, Copy, Debug, PartialEq, Eq, Structural)]
pub enum ScalarFeature {
    Name,
    Surname,
    Nickname,
    Birthdate,
    Birthplace,
    Description,
    Image,
    Collection,
    Profession,
}

/// The feature value that carries `value` for the field `tag`.
pub open spec fn scalar_view(tag: ScalarFeature, value: Seq<char>) -> FeatureView {
    match tag {
        ScalarFeature::Name => FeatureView::Name(value),
        ScalarFeature::Surname => FeatureView::Surname(value),
        ScalarFeature::Nickname => FeatureView::Nickname(value),
        ScalarFeature::Birthdate => FeatureView::Birthdate(value),
        ScalarFeature::Birthplace => FeatureView::Birthplace(value),
        ScalarFeature::Description => FeatureView::Description(value),
        ScalarFeature::Image => FeatureView::Image(value),
        ScalarFeature::Collection => FeatureView::Collection(value),
        ScalarFeature::Profession => FeatureView::Profession(value),
    }
}

impl ScalarFeature {
    /// Tags a text for this record field.
    pub fn wrap(self, value: String) -> (feature: CharacterFeature)
        ensures
            feature@ == scalar_view(self, value@),
    {
        match self {
            ScalarFeature::Name => CharacterFeature::NAME(value),
            ScalarFeature::Surname => CharacterFeature::SURNAME(value),
            ScalarFeature::Nickname => CharacterFeature::NICKNAME(value),
            ScalarFeature::Birthdate => CharacterFeature::BIRTHDATE(value),
            ScalarFeature::Birthplace => CharacterFeature::BIRTHPLACE(value),
            ScalarFeature::Description => CharacterFeature::DESCRIPTION(value),
            ScalarFeature::Image => CharacterFeature::IMAGE(value),
            ScalarFeature::Collection => CharacterFeature::COLLECTION(value),
            ScalarFeature::Profession => CharacterFeature::PROFESSION(value),
        }
    }
}

/// Something that produces one feature value per call, or none.
pub trait FeatureGenerator {
    /// Produces the next feature value, or none where the source is
    /// exhausted or the parameters allow none.
    fn generate(&mut self) -> (feature: Option<CharacterFeature>);
}

/// Produces a random date between two years, as a timestamp in decimal.
pub struct DateGenerator {
    pub birthdate_min_year: u16,
    pub birthdate_max_year: u16,
    pub tag: ScalarFeature,
}

impl DateGenerator {
    /// A generator of dates from the first year up to the second, tagged
    /// for a record field.
    pub fn new(birthdate_min_year: u16, birthdate_max_year: u16, tag: ScalarFeature) -> (generator:
        Self)
        ensures
            generator.birthdate_min_year == birthdate_min_year,
            generator.birthdate_max_year == birthdate_max_year,
            generator.tag == tag,
    {
        DateGenerator { birthdate_min_year, birthdate_max_year, tag }
    }
}

impl FeatureGenerator for DateGenerator {
    /// Fails only where the earliest year is after the latest.
    fn generate(&mut self) -> (feature: Option<CharacterFeature>)
        ensures
            *final(self) == *old(self),
            old(self).birthdate_min_year > old(self).birthdate_max_year <==> feature is None,
            feature matches Some(f) ==> exists|offset: int|
                offset_in_span(
                    old(self).birthdate_min_year as int,
                    old(self).birthdate_max_year as int,
                    offset,
                ) && f@ == scalar_view(
                    old(self).tag,
                    decimal(#[trigger] midnight_after(old(self).birthdate_min_year as int, offset)),
                ),
    {
        match get_random_date(self.birthdate_min_year, self.birthdate_max_year) {
            Some(seconds) => Some(self.tag.wrap(to_decimal_string(seconds))),
            None => None,
        }
    }
}

/// Samples one term per call and keeps it in the dictionary.
pub struct ChooseGenerator {
    pub dict: SimpleDictionary,
    pub tag: ScalarFeature,
}

impl ChooseGenerator {
    /// A generator that samples the dictionary with replacement, tagged for
    /// a record field.
    pub fn new(dict: SimpleDictionary, tag: ScalarFeature) -> (generator: Self)
        ensures
            generator.dict == dict,
            generator.tag == tag,
    {
        ChooseGenerator { dict, tag }
    }
}

impl FeatureGenerator for ChooseGenerator {
    fn generate(&mut self) -> (feature: Option<CharacterFeature>)
        ensures
            *final(self) == *old(self),
            old(self).dict@.len() == 0 <==> feature is None,
            feature matches Some(f) ==> exists|i: int|
                0 <= i < old(self).dict@.len() && f@ == scalar_view(old(self).tag, #[trigger] old(self).dict@[i]),
    {
        match self.dict.choose_term() {
            Some(value) => {
                proof {
                    let i = choose|i: int| 0 <= i < self.dict@.len() && self.dict@[i] == value@;
                    assert(self.dict@[i] == value@);
                }
                Some(self.tag.wrap(value))
            },
            None => None,
        }
    }
}

/// Samples one term per call and takes it out of the dictionary.
pub struct ChooseAndRemoveGenerator {
    pub dict: SimpleDictionary,
    pub tag: ScalarFeature,
}

impl ChooseAndRemoveGenerator {
    /// A generator that samples the dictionary without replacement, tagged
    /// for a record field.
    pub fn new(dict: SimpleDictionary, tag: ScalarFeature) -> (generator: Self)
        ensures
            generator.dict == dict,
            generator.tag == tag,
    {
        ChooseAndRemoveGenerator { dict, tag }
    }
}

impl FeatureGenerator for ChooseAndRemoveGenerator {
    fn generate(&mut self) -> (feature: Option<CharacterFeature>)
        ensures
            final(self).tag == old(self).tag,
            final(self).dict.name_view() == old(self).dict.name_view(),
            old(self).dict@.len() == 0 <==> feature is None,
            feature is None ==> final(self).dict@ == old(self).dict@,
            feature matches Some(f) ==> exists|term: Seq<char>|
                took_one(old(self).dict@, final(self).dict@, term) && f@ == #[trigger] scalar_view(
                    old(self).tag,
                    term,
                ),
    {
        match self.dict.choose_and_remove() {
            Some(value) => Some(self.tag.wrap(value)),
            None => None,
        }
    }
}

/// Samples a fixed number of terms per call, each kept in the dictionary,
/// so that a term may come more than once.
pub struct ChooseVecGenerator {
    pub dict: SimpleDictionary,
    pub vec_size: u8,
}

impl ChooseVecGenerator {
    /// A generator of lists of `vec_size` terms of the dictionary.
    pub fn new(dict: SimpleDictionary, vec_size: u8) -> (generator: Self)
        ensures
            generator.dict == dict,
            generator.vec_size == vec_size,
    {
        ChooseVecGenerator { dict, vec_size }
    }
}

impl FeatureGenerator for ChooseVecGenerator {
    fn generate(&mut self) -> (feature: Option<CharacterFeature>)
        ensures
            *final(self) == *old(self),
            feature is None <==> old(self).vec_size > 0 && old(self).dict@.len() == 0,
            feature matches Some(f) ==> f@ matches FeatureView::Hobbies(picks) && picks.len()
                == old(self).vec_size && forall|k: int|
                0 <= k < picks.len() ==> old(self).dict@.contains(#[trigger] picks[k]),
    {
        let mut feat_vec: Vec<String> = Vec::new();
        let mut done: u8 = 0;
        while done < self.vec_size
            invariant
                *self == *old(self),
                done <= self.vec_size,
                feat_vec@.len() == done,
                done > 0 ==> self.dict@.len() > 0,
                forall|k: int|
                    0 <= k < feat_vec@.len() ==> self.dict@.contains(
                        #[trigger] texts(feat_vec@)[k],
                    ),
            decreases self.vec_size - done,
        {
            match self.dict.choose_term() {
                Some(value) => {
                    proof {
                        broadcast use vstd::seq_lib::group_to_multiset_ensures;

                        assert(texts(feat_vec@.push(value)) =~= texts(feat_vec@).push(value@));
                    }
                    feat_vec.push(value);
                },
                None => {
                    return None;
                },
            }
            done = done + 1;
        }
        Some(CharacterFeature::HOBBIES(feat_vec))
    }
}

/// Whether each quirk of the list is something that the term at its place
/// may become.
pub open spec fn made_in_turn<T: Quirk>(quirks: Seq<T>, terms: Seq<Seq<char>>) -> bool {
    &&& quirks.len() == terms.len()
    &&& forall|k: int| 0 <= k < quirks.len() ==> (#[trigger] quirks[k]).made_from(terms[k])
}

/// Whether every term of a pool can become a quirk of type `T`.
pub open spec fn all_fit<T: Quirk>(pool: Multiset<Seq<char>>) -> bool {
    forall|term: Seq<char>| pool.count(term) > 0 ==> #[trigger] T::fits(term)
}

/// Samples a fixed number of terms per call without replacement and makes a
/// quirk of each. The sampling runs on a working copy of the dictionary, so
/// no term comes twice within one call and the dictionary itself stays as it
/// is from call to call.
pub struct ChooseVecQuirkGenerator<T: Quirk> {
    pub dict: T::Source,
    pub vec_size: u8,
}

impl<T: Quirk> ChooseVecQuirkGenerator<T> {
    /// A generator of lists of `vec_size` quirks made from terms of the
    /// dictionary.
    pub fn new(dict: T::Source, vec_size: u8) -> (generator: Self)
        ensures
            generator.dict == dict,
            generator.vec_size == vec_size,
    {
        ChooseVecQuirkGenerator { dict, vec_size }
    }
}

impl<T: Quirk> FeatureGenerator for ChooseVecQuirkGenerator<T> {
    fn generate(&mut self) -> (feature: Option<CharacterFeature>)
        ensures
            *final(self) == *old(self),
            feature matches Some(f) ==> exists|quirks: Seq<T>, terms: Seq<Seq<char>>|
                f@ == T::feature_of(quirks) && #[trigger] made_in_turn(quirks, terms)
                    && quirks.len() == old(self).vec_size && terms.to_multiset().subset_of(
                    old(self).dict.pool(),
                ),
            old(self).dict.pool().len() < old(self).vec_size ==> feature is None,
            old(self).dict.dependable() && all_fit::<T>(old(self).dict.pool()) && old(
                self,
            ).dict.pool().len() >= old(self).vec_size ==> feature is Some,
    {
        let mut feat_vec: Vec<T> = Vec::new();
        let mut cloned_dict = self.dict.snapshot();
        let ghost mut terms: Seq<Seq<char>> = Seq::empty();
        let mut done: u8 = 0;
        proof {
            broadcast use vstd::seq_lib::group_to_multiset_ensures;

            assert(terms.to_multiset() =~= Multiset::empty());
        }
        while done < self.vec_size
            invariant
                *self == *old(self),
                done <= self.vec_size,
                feat_vec@.len() == done,
                made_in_turn(feat_vec@, terms),
                self.dict.pool() =~= cloned_dict.pool().add(terms.to_multiset()),
                self.dict.dependable() ==> cloned_dict.dependable(),
            decreases self.vec_size - done,
        {
            proof {
                broadcast use vstd::seq_lib::group_to_multiset_ensures;

            }
            let ghost before = cloned_dict.pool();
            match cloned_dict.choose_and_remove() {
                Some(term) => {
                    let ghost picked = term@;
                    assert(self.dict.pool().count(picked) > 0);
                    match T::from_term(term) {
                        Some(quirk) => {
                            feat_vec.push(quirk);
                            proof {
                                terms = terms.push(picked);
                            }
                        },
                        None => {
                            return None;
                        },
                    }
                },
                None => {
                    return None;
                },
            }
            done = done + 1;
        }
        proof {
            broadcast use vstd::seq_lib::group_to_multiset_ensures;

            assert(terms.to_multiset().subset_of(self.dict.pool()));
        }
        Some(T::into_feature(feat_vec))
    }
}

/// Terms sampled without replacement from a pool that holds no term twice
/// are pairwise distinct.
pub proof fn lemma_picks_are_distinct(terms: Seq<Seq<char>>, pool: Multiset<Seq<char>>)
    requires
        terms.to_multiset().subset_of(pool),
        forall|term: Seq<char>| pool.count(term) <= 1,
    ensures
        terms.no_duplicates(),
{
    assert forall|term: Seq<char>| terms.to_multiset().contains(term) implies terms.to_multiset().count(
        term,
    ) == 1 by {
        assert(terms.to_multiset().count(term) <= pool.count(term));
    }
    terms.lemma_multiset_has_no_duplicates_conv();
}

/// What one call of the stats generator hands out, given a pool of stat
/// names none of which is held twice: as many stats as were asked for, with
/// pairwise distinct names, each name from the pool, each value on the scale
/// and each scale ending at its fixed upper end.
pub proof fn lemma_stats_of_one_character(
    stats: Seq<Stat>,
    terms: Seq<Seq<char>>,
    pool: Multiset<Seq<char>>,
)
    requires
        made_in_turn(stats, terms),
        terms.to_multiset().subset_of(pool),
        forall|term: Seq<char>| pool.count(term) <= 1,
    ensures
        forall|a: int, b: int|
            0 <= a < stats.len() && 0 <= b < stats.len() && a != b ==> stats[a]@.name
                != stats[b]@.name,
        forall|k: int|
            0 <= k < stats.len() ==> pool.count((#[trigger] stats[k])@.name) > 0
                && MIN_QUIRK_VALUE <= stats[k]@.value <= MAX_QUIRK_VALUE && stats[k]@.max_value
                == MAX_QUIRK_VALUE,
{
    broadcast use vstd::seq_lib::group_to_multiset_ensures;

    lemma_picks_are_distinct(terms, pool);
    assert forall|k: int| 0 <= k < stats.len() implies pool.count((#[trigger] stats[k])@.name)
        > 0 && MIN_QUIRK_VALUE <= stats[k]@.value <= MAX_QUIRK_VALUE && stats[k]@.max_value
        == MAX_QUIRK_VALUE by {
        assert(stats[k].made_from(terms[k]));
        assert(terms.contains(terms[k]));
        assert(terms.to_multiset().count(terms[k]) <= pool.count(terms[k]));
    }
    assert forall|a: int, b: int|
        0 <= a < stats.len() && 0 <= b < stats.len() && a != b implies stats[a]@.name
        != stats[b]@.name by {
        assert(stats[a].made_from(terms[a]));
        assert(stats[b].made_from(terms[b]));
    }
}

} // verus!
